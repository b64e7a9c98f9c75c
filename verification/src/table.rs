//! In-memory model of the binary table source's query surface: named
//! tables, rows addressed by sequential position, and cells addressed
//! by column label.
//!
//! The byte-level decoding of the table container is an external
//! collaborator's job; its output is handed over in these plain types.

use vstd::prelude::*;

use crate::label::Label;

verus! {

/// A scalar cell value: a number, a text, or some other scalar shape
/// that coerces to neither.
#[derive(PartialEq, Eq, Debug)]
pub enum Scalar {
    Int(u32),
    Text(String),
    Other,
}

/// A cell: either a single scalar or an aggregate (list-like) value.
/// Projecting a scalar out of an aggregate cell is a coercion failure.
#[derive(PartialEq, Eq, Debug)]
pub enum Cell {
    Single(Scalar),
    Aggregate,
}

/// One column of a row: the column's label and the held cell.
#[derive(PartialEq, Eq, Debug)]
pub struct Column {
    pub label: Label,
    pub cell: Cell,
}

/// A row: its cells keyed by column label. A lookup may legitimately
/// find nothing, since the schema varies across editions.
#[derive(PartialEq, Eq, Debug)]
pub struct Row {
    pub columns: Vec<Column>,
}

/// A named table: an ordered sequence of rows, the row at position `i`
/// having sequential id `i`.
#[derive(PartialEq, Eq, Debug)]
pub struct Table {
    pub name: Label,
    pub rows: Vec<Row>,
}

/// A set of named tables, as one data dump hands them over.
#[derive(PartialEq, Eq, Debug)]
pub struct TableSet {
    pub tables: Vec<Table>,
}

/// The cell of the first column of `columns` labeled with hash `hash`,
/// if any column is.
pub open spec fn columns_cell(columns: Seq<Column>, hash: u32) -> Option<Cell>
    decreases columns.len(),
{
    if columns.len() == 0 {
        None
    } else if columns[0].label.hash == hash {
        Some(columns[0].cell)
    } else {
        columns_cell(columns.skip(1), hash)
    }
}

/// The first table of `tables` named with hash `hash`, if any is.
pub open spec fn tables_find(tables: Seq<Table>, hash: u32) -> Option<Table>
    decreases tables.len(),
{
    if tables.len() == 0 {
        None
    } else if tables[0].name.hash == hash {
        Some(tables[0])
    } else {
        tables_find(tables.skip(1), hash)
    }
}

/// A table found by name carries that name.
pub proof fn lemma_tables_find_name(tables: Seq<Table>, hash: u32)
    ensures
        tables_find(tables, hash) matches Some(tb) ==> tb.name.hash == hash,
    decreases tables.len(),
{
    if tables.len() > 0 {
        lemma_tables_find_name(tables.skip(1), hash);
    }
}

impl Row {
    /// The cell under `label`, as a spec-level view of this row.
    pub open spec fn spec_get(self, label: Label) -> Option<Cell> {
        columns_cell(self.columns@, label.hash)
    }

    /// Looks up the cell under `label`; absence is an expected,
    /// non-error outcome for edition-dependent columns.
    pub fn get(&self, label: &Label) -> (r: Option<&Cell>)
        ensures
            match r {
                Some(c) => self.spec_get(*label) == Some(*c),
                None => self.spec_get(*label) is None,
            },
    {
        proof {
            assert(self.columns@.skip(0) =~= self.columns@);
        }
        let n = self.columns.len();
        for i in 0..n
            invariant
                n == self.columns@.len(),
                columns_cell(self.columns@, label.hash)
                    == columns_cell(self.columns@.skip(i as int), label.hash),
        {
            proof {
                assert(self.columns@.skip(i as int).skip(1) =~= self.columns@.skip(i + 1));
            }
            if self.columns[i].label.hash == label.hash {
                return Some(&self.columns[i].cell);
            }
        }
        None
    }
}

impl Table {
    /// The number of rows.
    pub fn len(&self) -> (n: usize)
        ensures
            n == self.rows@.len(),
    {
        self.rows.len()
    }

    /// The row at sequential id `id`; fails if `id` is out of range.
    pub fn row(&self, id: usize) -> (r: Option<&Row>)
        ensures
            match r {
                Some(row) => id < self.rows@.len() && *row == self.rows@[id as int],
                None => id >= self.rows@.len(),
            },
    {
        if id < self.rows.len() {
            Some(&self.rows[id])
        } else {
            None
        }
    }
}

impl TableSet {
    /// The first table named by `label`, as a spec-level view.
    pub open spec fn spec_table(self, label: Label) -> Option<Table> {
        tables_find(self.tables@, label.hash)
    }

    /// Looks up a table by name. Every table this library references is
    /// mandatory, so a caller treats `None` as fatal.
    pub fn table(&self, label: &Label) -> (r: Option<&Table>)
        ensures
            match r {
                Some(t) => self.spec_table(*label) == Some(*t),
                None => self.spec_table(*label) is None,
            },
    {
        proof {
            assert(self.tables@.skip(0) =~= self.tables@);
        }
        let n = self.tables.len();
        for i in 0..n
            invariant
                n == self.tables@.len(),
                tables_find(self.tables@, label.hash)
                    == tables_find(self.tables@.skip(i as int), label.hash),
        {
            proof {
                assert(self.tables@.skip(i as int).skip(1) =~= self.tables@.skip(i + 1));
            }
            if self.tables[i].name.hash == label.hash {
                return Some(&self.tables[i]);
            }
        }
        None
    }
}

/// The integer held by a cell, if the cell is a single numeric scalar.
pub open spec fn spec_cell_integer(cell: Cell) -> Option<u32> {
    match cell {
        Cell::Single(Scalar::Int(n)) => Some(n),
        _ => None,
    }
}

/// The text held by a cell, if the cell is a single text scalar.
pub open spec fn spec_cell_text(cell: Cell) -> Option<Seq<char>> {
    match cell {
        Cell::Single(Scalar::Text(s)) => Some(s@),
        _ => None,
    }
}

impl Cell {
    /// Coerces this cell to an integer: fails if the cell holds an
    /// aggregate, or a scalar that is not numeric.
    pub fn integer(&self) -> (r: Option<u32>)
        ensures
            r == spec_cell_integer(*self),
    {
        match self {
            Cell::Single(Scalar::Int(n)) => Some(*n),
            _ => None,
        }
    }

    /// Coerces this cell to text: fails if the cell holds an aggregate,
    /// or a scalar that is not text.
    pub fn text(&self) -> (r: Option<&String>)
        ensures
            match r {
                Some(s) => spec_cell_text(*self) == Some(s@),
                None => spec_cell_text(*self) is None,
            },
    {
        match self {
            Cell::Single(Scalar::Text(s)) => Some(s),
            _ => None,
        }
    }
}

} // verus!
