use aerostage::common::format::{print_table, PrintTableError};

#[test]
fn test_print_table_valid() {
    let rows = vec![vec!["Name", "Age"], vec!["Alice", "30"], vec!["Bob", "25"]];
    let refs: Vec<&[&str]> = rows.iter().map(|r| r.as_slice()).collect();

    assert!(print_table(&refs).is_ok());
}

#[test]
fn test_print_table_empty() {
    let rows: Vec<&[&str]> = vec![];
    let res = print_table(&rows);
    assert!(matches!(res, Err(PrintTableError::EmptyTable)));
}

#[test]
fn test_print_table_varying_columns() {
    let rows = vec![vec!["Name", "Age"], vec!["Alice"], vec!["Bob", "25", "Extra"]];
    let refs: Vec<&[&str]> = rows.iter().map(|r| r.as_slice()).collect();

    let res = print_table(&refs);
    assert!(matches!(res, Err(PrintTableError::VaryingNumberOfColumns)));
}

#[test]
fn test_print_table_column_widths() {
    let rows = vec![
        vec!["Header", "Col2", "X"],
        vec!["LongName", "Dat", "Z"],
        vec!["H", "COL2VERY", "ZZZ"],
    ];
    let refs: Vec<&[&str]> = rows.iter().map(|r| r.as_slice()).collect();

    assert!(print_table(&refs).is_ok());
}

#[test]
fn print_table_pads_every_column_to_its_widest_cell() {
    let rows = vec![vec!["Name", "Age"], vec!["Alice", "30"], vec!["Bob", "25"]];
    let refs: Vec<&[&str]> = rows.iter().map(|r| r.as_slice()).collect();

    assert_eq!(
        print_table(&refs).unwrap(),
        "| Name  | Age |\n| Alice | 30  |\n| Bob   | 25  |\n"
    );
}

#[test]
fn print_table_error_messages() {
    assert_eq!(PrintTableError::EmptyTable.message(), "The given table is empty.");
    assert_eq!(
        PrintTableError::VaryingNumberOfColumns.message(),
        "All rows need to have the exact same number of columns."
    );
}
