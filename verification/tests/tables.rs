use game_data::label::Label;
use game_data::table::{Cell, Column, Row, Scalar, Table, TableSet};

fn sample_row() -> Row {
    Row {
        columns: vec![
            Column { label: Label::from_hash(1), cell: Cell::Single(Scalar::Int(7)) },
            Column {
                label: Label::from_hash(2),
                cell: Cell::Single(Scalar::Text(String::from("seven"))),
            },
            Column { label: Label::from_hash(3), cell: Cell::Aggregate },
        ],
    }
}

#[test]
fn row_lookup_finds_cells_by_label_hash() {
    let row = sample_row();
    assert_eq!(row.get(&Label::from_hash(1)), Some(&Cell::Single(Scalar::Int(7))));
    assert_eq!(row.get(&Label::from_hash(3)), Some(&Cell::Aggregate));
    assert_eq!(row.get(&Label::from_hash(4)), None);
}

#[test]
fn cell_coercions_fail_on_the_wrong_shape() {
    let row = sample_row();
    let int_cell = row.get(&Label::from_hash(1)).unwrap();
    assert_eq!(int_cell.integer(), Some(7));
    assert_eq!(int_cell.text(), None);

    let text_cell = row.get(&Label::from_hash(2)).unwrap();
    assert_eq!(text_cell.integer(), None);
    assert_eq!(text_cell.text().map(String::as_str), Some("seven"));

    let aggregate = row.get(&Label::from_hash(3)).unwrap();
    assert_eq!(aggregate.integer(), None);
    assert_eq!(aggregate.text(), None);
}

#[test]
fn rows_are_addressed_by_sequential_position() {
    let table = Table {
        name: Label::from_hash(10),
        rows: vec![Row { columns: vec![] }, sample_row()],
    };
    assert_eq!(table.len(), 2);
    assert_eq!(table.row(0), Some(&Row { columns: vec![] }));
    assert_eq!(table.row(1), Some(&sample_row()));
    assert_eq!(table.row(2), None);
}

#[test]
fn tables_are_found_by_name_and_missing_ones_are_not() {
    let set = TableSet {
        tables: vec![
            Table { name: Label::from_hash(10), rows: vec![] },
            Table { name: Label::from_hash(11), rows: vec![sample_row()] },
        ],
    };
    assert_eq!(set.table(&Label::from_hash(10)).unwrap().name, Label::from_hash(10));
    assert_eq!(set.table(&Label::from_hash(11)).unwrap().rows.len(), 1);
    assert!(set.table(&Label::from_hash(12)).is_none());
}
