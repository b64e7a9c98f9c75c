//! Item records, the per-category registry and its localization lookup.
//!
//! A registry holds one id-sorted, duplicate-free partition of records
//! per category; point lookup is by binary search. All partitions are
//! built once, during data-package construction, and read thereafter.

use vstd::prelude::*;

use vstd::seq_lib::group_to_multiset_ensures;
use vstd::seq_lib::lemma_multiset_commutative;
use vstd::multiset::group_multiset_axioms;

use crate::lang::LanguageData;
use crate::lang::Nameable;
use crate::lang::TextTable;

verus! {

/// The fixed, closed set of item categories partitioning the records.
#[derive(Clone, Copy, PartialEq, Eq, Structural, Debug)]
pub enum ItemType {
    Cylinder,
    Gem,
    Collection,
    Collectopedia,
    Info,
    Accessory,
    Precious,
    Exchange,
    Extra,
}

/// The closed 3-level rarity classification of an item.
#[derive(Clone, Copy, PartialEq, Eq, Structural, Debug)]
pub enum Rarity {
    Common,
    Rare,
    Legendary,
}

/// The error for an integer code outside the three valid rarity codes.
#[derive(Clone, Copy, PartialEq, Eq, Structural, Debug)]
pub struct RarityFromIntError;

/// The rarity encoded by `value`, or an error for any other code.
pub open spec fn spec_rarity_from_int(value: u32) -> Result<Rarity, RarityFromIntError> {
    if value == 0 {
        Ok(Rarity::Common)
    } else if value == 1 {
        Ok(Rarity::Rare)
    } else if value == 2 {
        Ok(Rarity::Legendary)
    } else {
        Err(RarityFromIntError)
    }
}

impl Rarity {
    /// Decodes a rarity from its integer code; any code other than the
    /// three valid ones is a decode failure.
    pub fn try_from(value: u32) -> (r: Result<Rarity, RarityFromIntError>)
        ensures
            r == spec_rarity_from_int(value),
    {
        match value {
            0 => Ok(Rarity::Common),
            1 => Ok(Rarity::Rare),
            2 => Ok(Rarity::Legendary),
            _ => Err(RarityFromIntError),
        }
    }
}

/// A decoded domain record.
///
/// `id` is the source row's sequential position, unique within the
/// record's category. `name_id`, when present, is a positive 1-based
/// reference into the category's localization table; a row whose name
/// column held 0 has no name.
#[derive(Clone, Copy, PartialEq, Eq, Debug)]
pub struct Item {
    pub id: u32,
    pub name_id: Option<usize>,
    pub item_type: ItemType,
    pub amount_max: u32,
    pub rarity: Rarity,
}

impl Item {
    /// A name-id, if present, is positive: 0 encodes "no name" and is
    /// decoded to an absent `name_id`, never stored.
    pub open spec fn valid_name(self) -> bool {
        match self.name_id {
            Some(n) => n > 0,
            None => true,
        }
    }
}

/// A category partition in registry shape: ids strictly ascending (so
/// duplicate-free), every record of the partition's category.
pub open spec fn partition_ok(s: Seq<Item>, t: ItemType) -> bool {
    &&& forall|i: int, j: int| 0 <= i < j < s.len() ==> s[i].id < s[j].id
    &&& forall|i: int| 0 <= i < s.len() ==> (#[trigger] s[i]).item_type == t
}

/// The category-partitioned, id-sorted, duplicate-free collection of
/// decoded records.
pub struct ItemRegistry {
    cylinder: Vec<Item>,
    gem: Vec<Item>,
    collection: Vec<Item>,
    collectopedia: Vec<Item>,
    info: Vec<Item>,
    accessory: Vec<Item>,
    precious: Vec<Item>,
    exchange: Vec<Item>,
    extra: Vec<Item>,
}

impl ItemRegistry {
    /// The records of category `t`, in registry order.
    pub closed spec fn partition(self, t: ItemType) -> Seq<Item> {
        match t {
            ItemType::Cylinder => self.cylinder@,
            ItemType::Gem => self.gem@,
            ItemType::Collection => self.collection@,
            ItemType::Collectopedia => self.collectopedia@,
            ItemType::Info => self.info@,
            ItemType::Accessory => self.accessory@,
            ItemType::Precious => self.precious@,
            ItemType::Exchange => self.exchange@,
            ItemType::Extra => self.extra@,
        }
    }

    /// Registry invariant: every partition is in registry shape.
    pub open spec fn wf(self) -> bool {
        forall|t: ItemType| partition_ok(#[trigger] self.partition(t), t)
    }

    /// Whether category `t` holds a record with id `id`.
    pub open spec fn contains_id(self, t: ItemType, id: u32) -> bool {
        exists|i: int| 0 <= i < self.partition(t).len() && (#[trigger] self.partition(t)[i]).id == id
    }

    /// The partition of `t`, as the vector the registry holds.
    fn partition_ref(&self, t: ItemType) -> (r: &Vec<Item>)
        ensures
            r@ == self.partition(t),
    {
        match t {
            ItemType::Cylinder => &self.cylinder,
            ItemType::Gem => &self.gem,
            ItemType::Collection => &self.collection,
            ItemType::Collectopedia => &self.collectopedia,
            ItemType::Info => &self.info,
            ItemType::Accessory => &self.accessory,
            ItemType::Precious => &self.precious,
            ItemType::Exchange => &self.exchange,
            ItemType::Extra => &self.extra,
        }
    }

    /// Point lookup by category and id, by binary search. Absence is an
    /// ordinary outcome, never a failure: `None` comes exactly when no
    /// record of category `item_type` has id `id`.
    pub fn get_item(&self, item_type: ItemType, id: u32) -> (r: Option<&Item>)
        requires
            self.wf(),
        ensures
            match r {
                Some(item) => {
                    &&& item.id == id
                    &&& item.item_type == item_type
                    &&& self.partition(item_type).contains(*item)
                },
                None => !self.contains_id(item_type, id),
            },
    {
        let items = self.partition_ref(item_type);
        assert(partition_ok(items@, item_type));
        match binary_search_id(items, id) {
            Some(i) => {
                let item = &items[i];
                proof {
                    assert(self.partition(item_type)[i as int] == *item);
                }
                Some(item)
            },
            None => None,
        }
    }

    /// Registers a record into its category's partition at the position
    /// that keeps ids ascending. A duplicate id within the category is a
    /// construction-time invariant violation, which the precondition
    /// rules out; it is never silently overwritten.
    ///
    /// The category's new partition is its old one with `item` inserted;
    /// every other partition is untouched.
    pub fn register_item(&mut self, item: Item)
        requires
            old(self).wf(),
            !old(self).contains_id(item.item_type, item.id),
        ensures
            final(self).wf(),
            forall|t: ItemType| t != item.item_type
                ==> #[trigger] final(self).partition(t) == old(self).partition(t),
            exists|k: int| {
                &&& 0 <= k <= old(self).partition(item.item_type).len()
                &&& final(self).partition(item.item_type)
                    == old(self).partition(item.item_type).insert(k, item)
            },
            final(self).partition(item.item_type).to_multiset()
                == old(self).partition(item.item_type).to_multiset().insert(item),
            final(self).partition(item.item_type).contains(item),
    {
        proof {
            assert(partition_ok(old(self).partition(item.item_type), item.item_type));
        }
        match item.item_type {
            ItemType::Cylinder => insert_sorted(&mut self.cylinder, item),
            ItemType::Gem => insert_sorted(&mut self.gem, item),
            ItemType::Collection => insert_sorted(&mut self.collection, item),
            ItemType::Collectopedia => insert_sorted(&mut self.collectopedia, item),
            ItemType::Info => insert_sorted(&mut self.info, item),
            ItemType::Accessory => insert_sorted(&mut self.accessory, item),
            ItemType::Precious => insert_sorted(&mut self.precious, item),
            ItemType::Exchange => insert_sorted(&mut self.exchange, item),
            ItemType::Extra => insert_sorted(&mut self.extra, item),
        }
        proof {
            let told = old(self).partition(item.item_type);
            let tnew = self.partition(item.item_type);
            let k = choose|k: int| 0 <= k <= told.len() && tnew == told.insert(k, item);
            told.insert_ensures(k, item);
            assert(tnew[k] == item);
            assert forall|t: ItemType| partition_ok(#[trigger] self.partition(t), t) by {
                if t == item.item_type {
                    assert forall|i: int| 0 <= i < tnew.len() implies (#[trigger] tnew[i]).item_type
                        == t by {
                        if tnew[i] != item {
                            assert(told.contains(tnew[i]));
                            let j = choose|j: int| 0 <= j < told.len() && told[j] == tnew[i];
                            assert(told[j].item_type == t);
                        }
                    }
                } else {
                    assert(self.partition(t) == old(self).partition(t));
                    assert(partition_ok(old(self).partition(t), t));
                }
            }
        }
    }
}

impl Default for ItemRegistry {
    /// The empty registry: every partition empty.
    fn default() -> (r: Self)
        ensures
            r.wf(),
            forall|t: ItemType| (#[trigger] r.partition(t)).len() == 0,
    {
        ItemRegistry {
            cylinder: Vec::new(),
            gem: Vec::new(),
            collection: Vec::new(),
            collectopedia: Vec::new(),
            info: Vec::new(),
            accessory: Vec::new(),
            precious: Vec::new(),
            exchange: Vec::new(),
            extra: Vec::new(),
        }
    }
}

/// Binary search over a partition in registry shape: the index of the
/// record with id `id`, or `None` exactly when no record has it.
fn binary_search_id(items: &Vec<Item>, id: u32) -> (r: Option<usize>)
    requires
        forall|i: int, j: int| 0 <= i < j < items@.len() ==> items@[i].id < items@[j].id,
    ensures
        match r {
            Some(i) => i < items@.len() && items@[i as int].id == id,
            None => forall|i: int| 0 <= i < items@.len() ==> items@[i].id != id,
        },
{
    let mut lo: usize = 0;
    let mut hi: usize = items.len();
    while lo < hi
        invariant
            lo <= hi <= items@.len(),
            forall|i: int, j: int| 0 <= i < j < items@.len() ==> items@[i].id < items@[j].id,
            forall|i: int| 0 <= i < lo ==> items@[i].id < id,
            forall|i: int| hi <= i < items@.len() ==> items@[i].id > id,
        decreases hi - lo,
    {
        let mid = lo + (hi - lo) / 2;
        let mid_id = items[mid].id;
        if mid_id == id {
            return Some(mid);
        } else if mid_id < id {
            lo = mid + 1;
        } else {
            hi = mid;
        }
    }
    None
}

/// Inserts `item` into a partition in registry shape at the position
/// that keeps ids strictly ascending.
fn insert_sorted(items: &mut Vec<Item>, item: Item)
    requires
        forall|i: int, j: int|
            0 <= i < j < old(items)@.len() ==> old(items)@[i].id < old(items)@[j].id,
        forall|i: int| 0 <= i < old(items)@.len() ==> (#[trigger] old(items)@[i]).id != item.id,
    ensures
        exists|k: int| {
            &&& 0 <= k <= old(items)@.len()
            &&& final(items)@ == old(items)@.insert(k, item)
        },
        final(items)@.to_multiset() == old(items)@.to_multiset().insert(item),
        forall|i: int, j: int|
            0 <= i < j < final(items)@.len() ==> final(items)@[i].id < final(items)@[j].id,
        forall|i: int| 0 <= i < final(items)@.len()
            ==> #[trigger] final(items)@[i] == item || old(items)@.contains(final(items)@[i]),
{
    let ghost orig = items@;
    let mut lo: usize = 0;
    let mut hi: usize = items.len();
    while lo < hi
        invariant
            lo <= hi <= orig.len(),
            items@ == orig,
            forall|i: int, j: int| 0 <= i < j < orig.len() ==> orig[i].id < orig[j].id,
            forall|i: int| 0 <= i < orig.len() ==> (#[trigger] orig[i]).id != item.id,
            forall|i: int| 0 <= i < lo ==> orig[i].id < item.id,
            forall|i: int| hi <= i < orig.len() ==> orig[i].id > item.id,
        decreases hi - lo,
    {
        let mid = lo + (hi - lo) / 2;
        if items[mid].id < item.id {
            lo = mid + 1;
        } else {
            hi = mid;
        }
    }
    items.insert(lo, item);
    proof {
        let k = lo as int;
        assert(items@ == orig.insert(k, item));
        orig.insert_ensures(k, item);
        lemma_insert_to_multiset(orig, k, item);
        assert forall|i: int, j: int| 0 <= i < j < items@.len() implies items@[i].id
            < items@[j].id by {
            if j < k {
                assert(items@[i] == orig[i] && items@[j] == orig[j]);
            } else if i < k && j == k {
                assert(items@[i] == orig[i]);
            } else if i < k && j > k {
                assert(items@[i] == orig[i] && items@[j] == orig[j - 1]);
            } else if i == k {
                assert(items@[j] == orig[j - 1]);
            } else {
                assert(items@[i] == orig[i - 1] && items@[j] == orig[j - 1]);
            }
        }
        assert forall|i: int| 0 <= i < items@.len() implies #[trigger] items@[i] == item
            || orig.contains(items@[i]) by {
            if i < k {
                assert(items@[i] == orig[i]);
            } else if i > k {
                assert(items@[i] == orig[i - 1]);
            }
        }
    }
}

/// The slot a category occupies in category-indexed storage.
pub open spec fn category_index(t: ItemType) -> int {
    match t {
        ItemType::Cylinder => 0,
        ItemType::Gem => 1,
        ItemType::Collection => 2,
        ItemType::Collectopedia => 3,
        ItemType::Info => 4,
        ItemType::Accessory => 5,
        ItemType::Precious => 6,
        ItemType::Exchange => 7,
        ItemType::Extra => 8,
    }
}

/// The number of categories: one slot per `ItemType` variant.
pub const CATEGORY_COUNT: usize = 9;

/// The slot of category `t`, as executable code.
pub fn category_slot(t: ItemType) -> (i: usize)
    ensures
        i as int == category_index(t),
        i < CATEGORY_COUNT,
{
    match t {
        ItemType::Cylinder => 0,
        ItemType::Gem => 1,
        ItemType::Collection => 2,
        ItemType::Collectopedia => 3,
        ItemType::Info => 4,
        ItemType::Accessory => 5,
        ItemType::Precious => 6,
        ItemType::Exchange => 7,
        ItemType::Extra => 8,
    }
}

/// One language's localization tables, one table per item category.
pub struct ItemLanguageRegistry {
    tables: Vec<TextTable>,
}

impl ItemLanguageRegistry {
    /// The localization table of category `t`.
    pub closed spec fn table(self, t: ItemType) -> TextTable {
        self.tables@[category_index(t)]
    }

    /// One table stands in every category's slot.
    pub closed spec fn wf(self) -> bool {
        self.tables@.len() == CATEGORY_COUNT
    }

    /// A localization registry over one table per category, handed over
    /// in slot order.
    pub fn new(tables: Vec<TextTable>) -> (r: ItemLanguageRegistry)
        requires
            tables@.len() == CATEGORY_COUNT,
        ensures
            r.wf(),
            forall|t: ItemType| #[trigger] r.table(t) == tables@[category_index(t)],
    {
        ItemLanguageRegistry { tables }
    }

    /// The localization table of category `t`.
    pub fn table_ref(&self, t: ItemType) -> (r: &TextTable)
        requires
            self.wf(),
        ensures
            *r == self.table(t),
    {
        &self.tables[category_slot(t)]
    }
}

/// The fixed display text of a record that has no name, used for every
/// language without consulting any table.
pub open spec fn no_name_placeholder() -> Seq<char> {
    "[no name]"@
}

impl Item {
    /// The localized text this record's name resolves to under one
    /// language, if the record has a name that its category's table
    /// holds.
    pub open spec fn spec_name(self, language: LanguageData) -> Option<Seq<char>> {
        match self.name_id {
            None => None,
            Some(n) => language.items.table(self.item_type).spec_get(n),
        }
    }

    /// The display text of this record under one language: its resolved
    /// name, or the fixed placeholder — regardless of language, and
    /// without consulting the table — when the record has no name.
    pub fn display_name(&self, language: &LanguageData) -> (r: String)
        requires
            language.items.wf(),
        ensures
            match self.spec_name(*language) {
                Some(text) => r@ == text,
                None => r@ == no_name_placeholder(),
            },
            self.name_id is None ==> r@ == no_name_placeholder(),
    {
        match self.name_id {
            None => String::from_str("[no name]"),
            Some(n) => match language.items.table_ref(self.item_type).get(n) {
                Some(s) => s.clone(),
                None => String::from_str("[no name]"),
            },
        }
    }
}

impl Nameable for Item {
    /// An item's text is its name-id looked up in its category's table.
    open spec fn resolved_text(self, language: LanguageData) -> Option<Seq<char>> {
        self.spec_name(language)
    }

    open spec fn language_ready(self, language: LanguageData) -> bool {
        language.items.wf()
    }

    /// Resolves this record's localized name: `None` for a record with
    /// no name, and for a name-id its category's table does not hold.
    fn get_name<'l>(&self, language: &'l LanguageData) -> (r: Option<&'l str>) {
        match self.name_id {
            None => None,
            Some(n) => match language.items.table_ref(self.item_type).get(n) {
                Some(s) => Some(s.as_str()),
                None => None,
            },
        }
    }
}

/// Law: no two records share an id within a category. In a well-formed
/// registry, two positions of one category's partition holding the same
/// id are the same position.
pub proof fn lemma_partition_id_unique(reg: ItemRegistry, t: ItemType, i: int, j: int)
    requires
        reg.wf(),
        0 <= i < reg.partition(t).len(),
        0 <= j < reg.partition(t).len(),
        reg.partition(t)[i].id == reg.partition(t)[j].id,
    ensures
        i == j,
{
    assert(partition_ok(reg.partition(t), t));
}

/// Law: every registered record is found again under its own category
/// and id. A well-formed registry holds at most one record per id
/// within a category, so any record sharing a registered record's
/// category and id is that record — in particular, the record that
/// `get_item(r.item_type, r.id)` returns for a registered `r` is `r`.
pub proof fn lemma_registered_record_unique(reg: ItemRegistry, t: ItemType, r1: Item, r2: Item)
    requires
        reg.wf(),
        reg.partition(t).contains(r1),
        reg.partition(t).contains(r2),
        r1.id == r2.id,
    ensures
        r1 == r2,
{
    let i = choose|i: int| 0 <= i < reg.partition(t).len() && reg.partition(t)[i] == r1;
    let j = choose|j: int| 0 <= j < reg.partition(t).len() && reg.partition(t)[j] == r2;
    lemma_partition_id_unique(reg, t, i, j);
}

/// Two partitions in registry shape holding the same records are equal:
/// strictly ascending ids leave only one arrangement.
proof fn lemma_sorted_by_id_unique(x: Seq<Item>, y: Seq<Item>)
    requires
        forall|i: int, j: int| 0 <= i < j < x.len() ==> x[i].id < x[j].id,
        forall|i: int, j: int| 0 <= i < j < y.len() ==> y[i].id < y[j].id,
        x.to_multiset() == y.to_multiset(),
    ensures
        x =~= y,
    decreases x.len(),
{
    broadcast use group_multiset_axioms;
    broadcast use group_to_multiset_ensures;

    if x.len() == 0 {
        assert(y.to_multiset().len() == 0);
    } else if y.len() == 0 {
        assert(x.to_multiset().len() == 0);
    } else {
        assert(x.contains(x[0]));
        assert(y.contains(y[0]));
        assert(y.to_multiset().contains(x[0]));
        assert(x.to_multiset().contains(y[0]));
        let i = choose|i: int| 0 <= i < x.len() && x[i] == y[0];
        let j = choose|j: int| 0 <= j < y.len() && y[j] == x[0];
        assert(x[0].id <= x[i].id);
        assert(y[0].id <= y[j].id);
        assert(x[0].id == y[0].id);
        assert(i == 0) by {
            if i > 0 {
                assert(x[0].id < x[i].id);
            }
        }
        assert(x[0] == y[0]);
        assert(x.drop_first().to_multiset() =~= x.to_multiset().remove(x[0])) by {
            assert(x.drop_first() =~= x.remove(0));
        }
        assert(y.drop_first().to_multiset() =~= y.to_multiset().remove(y[0])) by {
            assert(y.drop_first() =~= y.remove(0));
        }
        lemma_sorted_by_id_unique(x.drop_first(), y.drop_first());
        assert forall|k: int| 0 <= k < x.len() implies x[k] == y[k] by {
            if k > 0 {
                assert(x.drop_first()[k - 1] == y.drop_first()[k - 1]);
            }
        }
    }
}

/// Law: registry construction is order-independent. A category's final
/// contents are determined by which records were registered, not by the
/// order of registration: two well-formed registries whose partitions
/// hold the same records are equal, partition by partition.
pub proof fn lemma_order_independent(r1: ItemRegistry, r2: ItemRegistry)
    requires
        r1.wf(),
        r2.wf(),
        forall|t: ItemType| #[trigger] r1.partition(t).to_multiset()
            == r2.partition(t).to_multiset(),
    ensures
        forall|t: ItemType| #[trigger] r1.partition(t) == r2.partition(t),
{
    assert forall|t: ItemType| #[trigger] r1.partition(t) == r2.partition(t) by {
        assert(partition_ok(r1.partition(t), t));
        assert(partition_ok(r2.partition(t), t));
        lemma_sorted_by_id_unique(r1.partition(t), r2.partition(t));
    }
}

/// Inserting an element anywhere in a sequence adds exactly it to the
/// sequence's multiset of elements.
proof fn lemma_insert_to_multiset<A>(s: Seq<A>, k: int, x: A)
    requires
        0 <= k <= s.len(),
    ensures
        s.insert(k, x).to_multiset() == s.to_multiset().insert(x),
{
    broadcast use group_multiset_axioms;
    broadcast use group_to_multiset_ensures;

    let left = s.subrange(0, k);
    let right = s.subrange(k, s.len() as int);
    assert(s.insert(k, x) == left.push(x) + right);
    lemma_multiset_commutative(left.push(x), right);
    lemma_multiset_commutative(left, right);
    assert(left + right =~= s);
    assert(left.push(x).to_multiset() =~= left.to_multiset().insert(x));
    assert(s.insert(k, x).to_multiset() =~= s.to_multiset().insert(x));
}

} // verus!
