//! Building the registries from a binary table source: per-category row
//! decoding with edition-dependent column tolerance, and the attached
//! localization tables.
//!
//! Construction either fully succeeds or fails fast as a whole, with
//! enough context (table, row, column) to diagnose a schema mismatch.

use vstd::prelude::*;

use crate::item::Item;
use crate::item::ItemLanguageRegistry;
use crate::item::ItemRegistry;
use crate::item::ItemType;
use crate::item::Rarity;
use crate::item::category_index;
use crate::item::partition_ok;
use crate::item::spec_rarity_from_int;
use crate::label::Label;
use crate::label::name_hash;
use crate::lang::TextTable;
use crate::table::Row;
use crate::table::Table;
use crate::table::TableSet;
use crate::table::spec_cell_integer;
use crate::table::spec_cell_text;

verus! {

/// Raw hash of the accessory flag column whose nonzero value caps the
/// stack amount at one; the column is absent from base-edition dumps.
pub const ACCESSORY_FLAG_HASH: u32 = 0xF620E3C8;

/// Raw hash of the Info category's text table, whose literal name is
/// unrecoverable.
pub const INFO_LANG_HASH: u32 = 0xCA2198EC;

/// Raw hash of the Collectopedia category's text table, whose literal
/// name is unrecoverable.
pub const COLLECTOPEDIA_LANG_HASH: u32 = 0xBEDB6533;

/// A failure to decode one row into a record.
#[derive(Clone, Copy, PartialEq, Eq, Debug)]
pub enum DecodeError {
    /// A mandatory column is absent from the row.
    MissingColumn { column: Label },
    /// A cell is present but not coercible to the expected shape.
    MalformedCell { column: Label },
    /// The rarity column holds a code outside the three valid ones.
    InvalidRarity { value: u32 },
}

/// A construction-time failure; malformed or incompatible source data
/// has no runtime recovery, so the whole load aborts with it.
#[derive(Clone, Copy, PartialEq, Eq, Debug)]
pub enum LoadError {
    /// A mandatory table is absent from the source.
    UnknownTable { table: Label },
    /// A row of a table failed to decode.
    Row { table: Label, row: usize, error: DecodeError },
    /// A table has more rows than the record id type can address.
    OversizedTable { table: Label },
}

/// The column holding a row's rarity code.
pub open spec fn rarity_column() -> Label {
    Label { hash: name_hash("Rarity"@) }
}

/// The column holding a row's name-id.
pub open spec fn name_column() -> Label {
    Label { hash: name_hash("Name"@) }
}

/// The accessory flag column, known by raw hash only.
pub open spec fn accessory_flag_column() -> Label {
    Label { hash: ACCESSORY_FLAG_HASH }
}

/// The column holding a text table row's localized text.
pub open spec fn text_column() -> Label {
    Label { hash: name_hash("name"@) }
}

/// A row's rarity: the "Rarity" column if present — whose value must be
/// one of the three valid codes — and Common where the column is absent.
pub open spec fn spec_row_rarity(row: Row) -> Result<Rarity, DecodeError> {
    match row.spec_get(rarity_column()) {
        None => Ok(Rarity::Common),
        Some(cell) => match spec_cell_integer(cell) {
            None => Err(DecodeError::MalformedCell { column: rarity_column() }),
            Some(code) => match spec_rarity_from_int(code) {
                Ok(rarity) => Ok(rarity),
                Err(_) => Err(DecodeError::InvalidRarity { value: code }),
            },
        },
    }
}

/// A row's maximum stack amount: the shared default of 99, overridden
/// to 1 for the Info category unconditionally, and for an Accessory
/// whose flag column is present and nonzero. An absent flag column is
/// an older data dump, not an error, and keeps the default.
pub open spec fn spec_amount_max(t: ItemType, row: Row) -> Result<u32, DecodeError> {
    match t {
        ItemType::Info => Ok(1u32),
        ItemType::Accessory => match row.spec_get(accessory_flag_column()) {
            None => Ok(99u32),
            Some(cell) => match spec_cell_integer(cell) {
                None => Err(DecodeError::MalformedCell { column: accessory_flag_column() }),
                Some(v) => if v != 0 {
                    Ok(1u32)
                } else {
                    Ok(99u32)
                },
            },
        },
        _ => Ok(99u32),
    }
}

/// A row's name-id: the mandatory "Name" column as an integer, 0
/// encoding "no name".
pub open spec fn spec_name_id(row: Row) -> Result<Option<usize>, DecodeError> {
    match row.spec_get(name_column()) {
        None => Err(DecodeError::MissingColumn { column: name_column() }),
        Some(cell) => match spec_cell_integer(cell) {
            None => Err(DecodeError::MalformedCell { column: name_column() }),
            Some(n) => if n == 0 {
                Ok(None)
            } else {
                Ok(Some(n as usize))
            },
        },
    }
}

/// The record the row at sequential position `id` of category `t`'s
/// table decodes to, or the first failure among rarity, stack amount
/// and name-id in that order.
pub open spec fn spec_read_item(t: ItemType, row: Row, id: u32) -> Result<Item, DecodeError> {
    match spec_row_rarity(row) {
        Err(e) => Err(e),
        Ok(rarity) => match spec_amount_max(t, row) {
            Err(e) => Err(e),
            Ok(amount_max) => match spec_name_id(row) {
                Err(e) => Err(e),
                Ok(name_id) => Ok(
                    Item { id, name_id, item_type: t, amount_max, rarity },
                ),
            },
        },
    }
}

/// Decodes one row of category `t`'s table into a record; `id` is the
/// row's sequential position, never read from a column.
pub fn read_item(item_type: ItemType, row: &Row, id: u32) -> (r: Result<Item, DecodeError>)
    ensures
        r == spec_read_item(item_type, *row, id),
        r matches Ok(item) ==> item.id == id && item.item_type == item_type && item.valid_name(),
        item_type == ItemType::Info ==> (r matches Ok(item) ==> item.amount_max == 1),
        (item_type == ItemType::Accessory && row.spec_get(accessory_flag_column()) is None)
            ==> (r matches Ok(item) ==> item.amount_max == 99),
        row.spec_get(rarity_column()) is None ==> (r matches Ok(item) ==> item.rarity
            == Rarity::Common),
        (match row.spec_get(name_column()) {
            Some(cell) => spec_cell_integer(cell) == Some(0u32),
            None => false,
        }) ==> (r matches Ok(item) ==> item.name_id is None),
        (match row.spec_get(rarity_column()) {
            Some(cell) => spec_cell_integer(cell) matches Some(code) && code > 2,
            None => false,
        }) ==> r is Err,
{
    let rarity_col = Label::from_literal("Rarity");
    let rarity: Rarity = match row.get(&rarity_col) {
        None => Rarity::Common,
        Some(cell) => match cell.integer() {
            None => {
                return Err(DecodeError::MalformedCell { column: rarity_col });
            },
            Some(code) => match Rarity::try_from(code) {
                Ok(rarity) => rarity,
                Err(_) => {
                    return Err(DecodeError::InvalidRarity { value: code });
                },
            },
        },
    };

    let mut amount_max: u32 = 99;
    match item_type {
        ItemType::Info => {
            amount_max = 1;
        },
        ItemType::Accessory => {
            // The flag column is absent from base-edition dumps: treat
            // absence as an unset flag, not as an error.
            let flag_col = Label::from_hash(ACCESSORY_FLAG_HASH);
            match row.get(&flag_col) {
                None => {},
                Some(cell) => match cell.integer() {
                    None => {
                        return Err(DecodeError::MalformedCell { column: flag_col });
                    },
                    Some(v) => {
                        if v != 0 {
                            amount_max = 1;
                        }
                    },
                },
            }
        },
        _ => {},
    }

    let name_col = Label::from_literal("Name");
    let name_id: Option<usize> = match row.get(&name_col) {
        None => {
            return Err(DecodeError::MissingColumn { column: name_col });
        },
        Some(cell) => match cell.integer() {
            None => {
                return Err(DecodeError::MalformedCell { column: name_col });
            },
            Some(n) => {
                if n == 0 {
                    None
                } else {
                    Some(n as usize)
                }
            },
        },
    };

    Ok(Item { id, name_id, item_type, amount_max, rarity })
}

/// The table holding category `t`'s rows.
pub open spec fn item_table_label(t: ItemType) -> Label {
    match t {
        ItemType::Collection => Label { hash: name_hash("ITM_Collection"@) },
        ItemType::Cylinder => Label { hash: name_hash("ITM_Cylinder"@) },
        ItemType::Accessory => Label { hash: name_hash("ITM_Accessory"@) },
        ItemType::Exchange => Label { hash: name_hash("ITM_Exchange"@) },
        ItemType::Gem => Label { hash: name_hash("ITM_Gem"@) },
        ItemType::Extra => Label { hash: name_hash("ITM_Extra"@) },
        ItemType::Info => Label { hash: name_hash("ITM_Info"@) },
        ItemType::Precious => Label { hash: name_hash("ITM_Precious"@) },
        ItemType::Collectopedia => Label { hash: name_hash("ITM_Collepedia"@) },
    }
}

/// The position of category `t` in the fixed processing order of
/// `load_items`; the final contents do not depend on it.
pub open spec fn load_order(t: ItemType) -> int {
    match t {
        ItemType::Collection => 0,
        ItemType::Cylinder => 1,
        ItemType::Accessory => 2,
        ItemType::Exchange => 3,
        ItemType::Gem => 4,
        ItemType::Extra => 5,
        ItemType::Info => 6,
        ItemType::Precious => 7,
        ItemType::Collectopedia => 8,
    }
}

/// Category `t` loads cleanly from `src`: its table is present, its
/// rows fit the record id range, and every row decodes.
pub open spec fn category_ok(src: TableSet, t: ItemType) -> bool {
    match src.spec_table(item_table_label(t)) {
        None => false,
        Some(table) => {
            &&& table.rows@.len() <= u32::MAX + 1
            &&& forall|i: int| 0 <= i < table.rows@.len()
                ==> spec_read_item(t, #[trigger] table.rows@[i], i as u32) is Ok
        },
    }
}

/// The records category `t`'s table decodes to, in row order; the row
/// at position `i` yields the record with id `i`.
pub open spec fn category_items(src: TableSet, t: ItemType) -> Seq<Item>
    recommends
        category_ok(src, t),
{
    let table = src.spec_table(item_table_label(t))->Some_0;
    Seq::new(table.rows@.len(), |i: int| spec_read_item(t, table.rows@[i], i as u32)->Ok_0)
}

/// Builds the item registry: for each category, iterates its table's
/// rows in physical order, decodes each, and registers every record.
/// Succeeds exactly when every category loads cleanly; the first
/// failure, in processing order, aborts the whole load.
pub fn load_items(bdat: &TableSet) -> (r: Result<ItemRegistry, LoadError>)
    ensures
        r is Ok <==> forall|t: ItemType| #[trigger] category_ok(*bdat, t),
        match r {
            Ok(reg) => {
                &&& reg.wf()
                &&& forall|t: ItemType| #[trigger] reg.partition(t) == category_items(*bdat, t)
            },
            Err(e) => match e {
                LoadError::UnknownTable { table } => {
                    &&& exists|t: ItemType| #[trigger] item_table_label(t) == table
                    &&& bdat.spec_table(table) is None
                },
                LoadError::Row { table, row, error } => {
                    exists|t: ItemType|
                        {
                            &&& #[trigger] item_table_label(t) == table
                            &&& bdat.spec_table(table) matches Some(tb)
                            &&& row < tb.rows@.len()
                            &&& row <= u32::MAX
                            &&& spec_read_item(t, tb.rows@[row as int], row as u32) == Err::<
                                Item,
                                DecodeError,
                            >(error)
                        }
                },
                LoadError::OversizedTable { table } => {
                    exists|t: ItemType|
                        {
                            &&& #[trigger] item_table_label(t) == table
                            &&& bdat.spec_table(table) matches Some(tb)
                            &&& tb.rows@.len() > u32::MAX + 1
                        }
                },
            },
        },
{
    let mut cats: Vec<(ItemType, Label)> = Vec::new();
    cats.push((ItemType::Collection, Label::from_literal("ITM_Collection")));
    cats.push((ItemType::Cylinder, Label::from_literal("ITM_Cylinder")));
    cats.push((ItemType::Accessory, Label::from_literal("ITM_Accessory")));
    cats.push((ItemType::Exchange, Label::from_literal("ITM_Exchange")));
    cats.push((ItemType::Gem, Label::from_literal("ITM_Gem")));
    cats.push((ItemType::Extra, Label::from_literal("ITM_Extra")));
    cats.push((ItemType::Info, Label::from_literal("ITM_Info")));
    cats.push((ItemType::Precious, Label::from_literal("ITM_Precious")));
    cats.push((ItemType::Collectopedia, Label::from_literal("ITM_Collepedia")));
    proof {
        assert forall|k: int| 0 <= k < 9 implies load_order(cats@[k].0) == k
            && cats@[k].1 == item_table_label(cats@[k].0) by {}
    }

    let mut registry = ItemRegistry::default();
    let ghost src = *bdat;

    for k in 0..9usize
        invariant
            cats@.len() == 9,
            forall|j: int| 0 <= j < 9 ==> load_order(#[trigger] cats@[j].0) == j,
            forall|j: int| 0 <= j < 9 ==> (#[trigger] cats@[j]).1 == item_table_label(cats@[j].0),
            src == *bdat,
            registry.wf(),
            forall|t: ItemType| load_order(t) < k ==> #[trigger] category_ok(src, t),
            forall|t: ItemType| load_order(t) < k
                ==> #[trigger] registry.partition(t) == category_items(src, t),
            forall|t: ItemType| load_order(t) >= k
                ==> (#[trigger] registry.partition(t)).len() == 0,
    {
        let (item_type, table_label) = cats[k];
        let ghost t = item_type;
        let table = match bdat.table(&table_label) {
            Some(table) => table,
            None => {
                proof {
                    assert(!category_ok(src, t));
                }
                return Err(LoadError::UnknownTable { table: table_label });
            },
        };
        let n = table.len();
        for i in 0..n
            invariant
                cats@.len() == 9,
                forall|j: int| 0 <= j < 9 ==> load_order(#[trigger] cats@[j].0) == j,
                forall|j: int| 0 <= j < 9
                    ==> (#[trigger] cats@[j]).1 == item_table_label(cats@[j].0),
                src == *bdat,
                k < 9,
                item_type == t,
                table_label == item_table_label(t),
                load_order(t) == k,
                src.spec_table(item_table_label(t)) == Some(*table),
                n == table.rows@.len(),
                i <= u32::MAX + 1,
                registry.wf(),
                forall|t2: ItemType| load_order(t2) < k ==> #[trigger] category_ok(src, t2),
                forall|t2: ItemType| load_order(t2) < k
                    ==> #[trigger] registry.partition(t2) == category_items(src, t2),
                forall|t2: ItemType| load_order(t2) > k
                    ==> (#[trigger] registry.partition(t2)).len() == 0,
                forall|j: int| 0 <= j < i
                    ==> spec_read_item(t, #[trigger] table.rows@[j], j as u32) is Ok,
                registry.partition(t) =~= Seq::new(
                    i as nat,
                    |j: int| spec_read_item(t, table.rows@[j], j as u32)->Ok_0,
                ),
                forall|j: int| 0 <= j < i ==> (#[trigger] registry.partition(t)[j]).id == j,
        {
            if i > u32::MAX as usize {
                proof {
                    assert(item_table_label(t) == table_label);
                    assert(src.spec_table(item_table_label(t)) == Some(*table));
                    assert(table.rows@.len() > u32::MAX + 1);
                    assert(!category_ok(src, t));
                }
                return Err(LoadError::OversizedTable { table: table_label });
            }
            let id = i as u32;
            let row = match table.row(i) {
                Some(row) => row,
                None => vstd::pervasive::unreached(),
            };
            let item = match read_item(item_type, row, id) {
                Ok(item) => item,
                Err(error) => {
                    proof {
                        assert(item_table_label(t) == table_label);
                        assert(src.spec_table(item_table_label(t)) == Some(*table));
                        assert(*row == table.rows@[i as int]);
                        assert(id as int == i as int);
                        assert(spec_read_item(t, table.rows@[id as int], id) == Err::<
                            Item,
                            DecodeError,
                        >(error));
                        assert(!category_ok(src, t));
                    }
                    return Err(LoadError::Row { table: table_label, row: i, error });
                },
            };
            let ghost before = registry.partition(t);
            registry.register_item(item);
            proof {
                let after = registry.partition(t);
                let pos = choose|pos: int|
                    0 <= pos <= before.len() && after == before.insert(pos, item);
                before.insert_ensures(pos, item);
                if pos < before.len() {
                    assert(after[pos] == item && after[pos + 1] == before[pos]);
                    assert(partition_ok(after, t));
                    assert(after[pos].id < after[pos + 1].id);
                    assert(before[pos].id == pos);
                    assert(false);
                }
                assert(after =~= before.push(item));
                assert(registry.partition(t) =~= Seq::new(
                    (i + 1) as nat,
                    |j: int| spec_read_item(t, table.rows@[j], j as u32)->Ok_0,
                ));
            }
        }
        proof {
            assert(category_ok(src, t));
            assert(registry.partition(t) =~= category_items(src, t));
            assert forall|t2: ItemType| load_order(t2) < k + 1 implies #[trigger] category_ok(
                src,
                t2,
            ) && registry.partition(t2) == category_items(src, t2) by {
                if load_order(t2) < k {
                } else {
                    assert(t2 == t);
                }
            }
        }
    }
    proof {
        assert(forall|t: ItemType| load_order(t) < 9);
    }
    Ok(registry)
}

/// A text table row's localized text: the mandatory "name" column.
pub open spec fn spec_row_text(row: Row) -> Result<Seq<char>, DecodeError> {
    match row.spec_get(text_column()) {
        None => Err(DecodeError::MissingColumn { column: text_column() }),
        Some(cell) => match spec_cell_text(cell) {
            None => Err(DecodeError::MalformedCell { column: text_column() }),
            Some(s) => Ok(s),
        },
    }
}

/// Every row of a raw text table carries a readable text.
pub open spec fn table_texts_ok(table: Table) -> bool {
    forall|i: int| 0 <= i < table.rows@.len()
        ==> spec_row_text(#[trigger] table.rows@[i]) is Ok
}

/// Builds one localization table from a raw text table: the row at
/// sequential position `p` holds the text of name-id `p + 1`.
pub fn text_table_from_table(table: &Table) -> (r: Result<TextTable, LoadError>)
    ensures
        r is Ok <==> table_texts_ok(*table),
        match r {
            Ok(tt) => {
                &&& tt.spec_len() == table.rows@.len()
                &&& forall|n: usize| 1 <= n <= table.rows@.len()
                    ==> #[trigger] tt.spec_get(n) == Some(
                        spec_row_text(table.rows@[n - 1])->Ok_0,
                    )
            },
            Err(e) => match e {
                LoadError::Row { table: tl, row, error } => {
                    &&& tl == table.name
                    &&& row < table.rows@.len()
                    &&& spec_row_text(table.rows@[row as int]) == Err::<
                        Seq<char>,
                        DecodeError,
                    >(error)
                },
                _ => false,
            },
        },
{
    let text_col = Label::from_literal("name");
    let mut texts: Vec<String> = Vec::new();
    let n = table.len();
    for i in 0..n
        invariant
            n == table.rows@.len(),
            text_col == text_column(),
            texts@.len() == i,
            forall|j: int| 0 <= j < i ==> spec_row_text(#[trigger] table.rows@[j]) is Ok,
            forall|j: int| 0 <= j < i
                ==> (#[trigger] texts@[j])@ == spec_row_text(table.rows@[j])->Ok_0,
    {
        let row = match table.row(i) {
            Some(row) => row,
            None => vstd::pervasive::unreached(),
        };
        let text = match row.get(&text_col) {
            None => {
                return Err(
                    LoadError::Row {
                        table: table.name,
                        row: i,
                        error: DecodeError::MissingColumn { column: text_col },
                    },
                );
            },
            Some(cell) => match cell.text() {
                None => {
                    return Err(
                        LoadError::Row {
                            table: table.name,
                            row: i,
                            error: DecodeError::MalformedCell { column: text_col },
                        },
                    );
                },
                Some(text) => text.clone(),
            },
        };
        texts.push(text);
    }
    Ok(TextTable::new(texts))
}

/// The raw text table holding category `t`'s localized names in one
/// language's table source. Two of the names are unrecoverable and
/// stand as raw hash constants.
pub open spec fn lang_table_label(t: ItemType) -> Label {
    match t {
        ItemType::Collection => Label { hash: name_hash("msg_item_collection"@) },
        ItemType::Cylinder => Label { hash: name_hash("msg_item_cylinder"@) },
        ItemType::Accessory => Label { hash: name_hash("msg_item_accessory"@) },
        ItemType::Exchange => Label { hash: name_hash("msg_item_exchange"@) },
        ItemType::Gem => Label { hash: name_hash("msg_item_gem"@) },
        ItemType::Extra => Label { hash: name_hash("msg_item_extra"@) },
        ItemType::Info => Label { hash: INFO_LANG_HASH },
        ItemType::Precious => Label { hash: name_hash("msg_item_precious"@) },
        ItemType::Collectopedia => Label { hash: COLLECTOPEDIA_LANG_HASH },
    }
}

/// Category `t`'s text table is present and every row of it reads.
pub open spec fn lang_category_ok(src: TableSet, t: ItemType) -> bool {
    match src.spec_table(lang_table_label(t)) {
        None => false,
        Some(tb) => table_texts_ok(tb),
    }
}

/// Builds the localization registry of one language from its table
/// source: one text table per category. Succeeds exactly when every
/// category's text table loads cleanly.
pub fn load_item_lang(bdat: &TableSet) -> (r: Result<ItemLanguageRegistry, LoadError>)
    ensures
        r is Ok <==> forall|t: ItemType| #[trigger] lang_category_ok(*bdat, t),
        match r {
            Ok(reg) => {
                &&& reg.wf()
                &&& forall|t: ItemType| #[trigger] reg.table(t).spec_len() == bdat.spec_table(
                    lang_table_label(t),
                )->Some_0.rows@.len()
                &&& forall|t: ItemType, n: usize|
                    1 <= n <= bdat.spec_table(lang_table_label(t))->Some_0.rows@.len()
                        ==> #[trigger] reg.table(t).spec_get(n) == Some(
                        spec_row_text(
                            bdat.spec_table(lang_table_label(t))->Some_0.rows@[n - 1],
                        )->Ok_0,
                    )
            },
            Err(e) => match e {
                LoadError::UnknownTable { table } => {
                    &&& exists|t: ItemType| #[trigger] lang_table_label(t) == table
                    &&& bdat.spec_table(table) is None
                },
                LoadError::Row { table, row, error } => {
                    exists|t: ItemType|
                        {
                            &&& #[trigger] lang_table_label(t) == table
                            &&& bdat.spec_table(table) matches Some(tb)
                            &&& row < tb.rows@.len()
                            &&& spec_row_text(tb.rows@[row as int]) == Err::<
                                Seq<char>,
                                DecodeError,
                            >(error)
                        }
                },
                _ => false,
            },
        },
{
    let mut cats: Vec<(ItemType, Label)> = Vec::new();
    cats.push((ItemType::Cylinder, Label::from_literal("msg_item_cylinder")));
    cats.push((ItemType::Gem, Label::from_literal("msg_item_gem")));
    cats.push((ItemType::Collection, Label::from_literal("msg_item_collection")));
    cats.push((ItemType::Collectopedia, Label::from_hash(COLLECTOPEDIA_LANG_HASH)));
    cats.push((ItemType::Info, Label::from_hash(INFO_LANG_HASH)));
    cats.push((ItemType::Accessory, Label::from_literal("msg_item_accessory")));
    cats.push((ItemType::Precious, Label::from_literal("msg_item_precious")));
    cats.push((ItemType::Exchange, Label::from_literal("msg_item_exchange")));
    cats.push((ItemType::Extra, Label::from_literal("msg_item_extra")));
    proof {
        assert forall|k: int| 0 <= k < 9 implies category_index(cats@[k].0) == k
            && cats@[k].1 == lang_table_label(cats@[k].0) by {}
    }

    let mut tables: Vec<TextTable> = Vec::new();
    let ghost src = *bdat;

    for k in 0..9usize
        invariant
            cats@.len() == 9,
            forall|j: int| 0 <= j < 9 ==> category_index(#[trigger] cats@[j].0) == j,
            forall|j: int| 0 <= j < 9 ==> (#[trigger] cats@[j]).1 == lang_table_label(cats@[j].0),
            src == *bdat,
            tables@.len() == k,
            forall|j: int| 0 <= j < k ==> #[trigger] lang_category_ok(src, cats@[j].0),
            forall|j: int| 0 <= j < k
                ==> (#[trigger] tables@[j]).spec_len() == src.spec_table(
                lang_table_label(cats@[j].0),
            )->Some_0.rows@.len(),
            forall|j: int, n: usize|
                (0 <= j < k && 1 <= n <= src.spec_table(
                    lang_table_label(cats@[j].0),
                )->Some_0.rows@.len()) ==> #[trigger] tables@[j].spec_get(n) == Some(
                    spec_row_text(
                        src.spec_table(lang_table_label(cats@[j].0))->Some_0.rows@[n - 1],
                    )->Ok_0,
                ),
    {
        let pair = cats[k];
        let item_type = pair.0;
        let table_label = pair.1;
        let ghost t = item_type;
        let table = match bdat.table(&table_label) {
            Some(table) => table,
            None => {
                proof {
                    assert(lang_table_label(t) == table_label);
                    assert(!lang_category_ok(src, t));
                }
                return Err(LoadError::UnknownTable { table: table_label });
            },
        };
        proof {
            crate::table::lemma_tables_find_name(bdat.tables@, table_label.hash);
            assert(table.name == table_label);
        }
        let text_table = match text_table_from_table(table) {
            Ok(text_table) => text_table,
            Err(e) => {
                proof {
                    assert(lang_table_label(t) == table_label);
                    assert(!lang_category_ok(src, t));
                }
                return Err(e);
            },
        };
        tables.push(text_table);
    }

    let registry = ItemLanguageRegistry::new(tables);
    proof {
        assert forall|t: ItemType| #[trigger] lang_category_ok(src, t) && registry.table(t)
            == tables@[category_index(t)] by {
            let j = category_index(t);
            assert(cats@[j].0 == t) by {
                assert(category_index(cats@[j].0) == j);
            }
            assert(lang_category_ok(src, cats@[j].0));
        }
    }
    Ok(registry)
}

} // verus!
