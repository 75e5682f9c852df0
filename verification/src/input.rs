//! The input: comma-separated text with a header row, of which one column
//! holds the measurements.

use vstd::prelude::*;
use crate::text::texts;

verus! {

/// The index, from zero, of the field that holds the measurement.
pub const MEASUREMENT_FIELD: usize = 1;

/// Why no column of measurements could be taken from the input.
#[derive(Clone, Copy, Debug, PartialEq, Eq, Structural)]
pub enum InputError {
    /// The input is not well-formed comma-separated text.
    Malformed,
    /// A row is too short to hold the field; `row` counts the rows after the
    /// header from zero.
    MissingField { row: usize },
}

/// `Error` of the csv crate: why a record could not be read. Nothing is
/// known of a value.
#[verifier::external_type_specification]
#[verifier::external_body]
pub struct ExCsvError(csv::Error);

/// The rows that the csv crate reads from `data`, each as the texts of its
/// fields, or nothing where it reports an error. With `has_headers` the first
/// row is taken as the header and left out.
pub uninterp spec fn csv_rows(data: Seq<u8>, has_headers: bool) -> Option<Seq<Seq<Seq<char>>>>;

/// The texts of the fields of each row.
pub open spec fn table_texts(rows: Seq<Vec<String>>) -> Seq<Seq<Seq<char>>> {
    Seq::new(rows.len(), |i: int| texts(rows[i]@))
}

/// Reads all rows of `data` with a reader of the csv crate, built by
/// `ReaderBuilder::new`, `has_headers` and `from_reader` and walked by
/// `Reader::records`. The outcome is named by `csv_rows`: the rows where
/// every record was read, the first error otherwise.
#[verifier::external_body]
fn read_rows(data: &[u8], has_headers: bool) -> (result: Result<Vec<Vec<String>>, csv::Error>)
    ensures
        match result {
            Ok(rows) => csv_rows(data@, has_headers) == Some(table_texts(rows@)),
            Err(_) => csv_rows(data@, has_headers) is None,
        },
{
    let mut reader = csv::ReaderBuilder::new().has_headers(has_headers).from_reader(data);
    reader.records().map(|row| row.map(|fields| fields.iter().map(String::from).collect())).collect()
}

/// `row` is the first row that has no field at `index`.
pub open spec fn is_first_short_row(rows: Seq<Seq<Seq<char>>>, index: int, row: int) -> bool {
    &&& 0 <= row < rows.len()
    &&& rows[row].len() <= index
    &&& forall|i: int| 0 <= i < row ==> (#[trigger] rows[i]).len() > index
}

/// The field at `index` of every row, or the first row that has none.
pub open spec fn column(rows: Seq<Seq<Seq<char>>>, index: int) -> Result<
    Seq<Seq<char>>,
    InputError,
> {
    if exists|row: int| is_first_short_row(rows, index, row) {
        let row = choose|row: int| is_first_short_row(rows, index, row);
        Err(InputError::MissingField { row: row as usize })
    } else {
        Ok(Seq::new(rows.len(), |i: int| rows[i][index]))
    }
}

/// The column of measurements of the input `data`, as texts.
pub open spec fn measurement_column(data: Seq<u8>) -> Result<Seq<Seq<char>>, InputError> {
    match csv_rows(data, true) {
        None => Err(InputError::Malformed),
        Some(rows) => column(rows, MEASUREMENT_FIELD as int),
    }
}

/// The texts of a column that was taken, or the reason why none was.
pub open spec fn column_texts(result: Result<Vec<String>, InputError>) -> Result<
    Seq<Seq<char>>,
    InputError,
> {
    match result {
        Ok(fields) => Ok(texts(fields@)),
        Err(error) => Err(error),
    }
}

/// Takes the field at `index` from every row. Where a row is too short, the
/// first such row is reported.
pub fn select_column(rows: &Vec<Vec<String>>, index: usize) -> (result: Result<
    Vec<String>,
    InputError,
>)
    ensures
        column_texts(result) == column(table_texts(rows@), index as int),
{
    let ghost table = table_texts(rows@);
    let mut fields: Vec<String> = Vec::new();
    let mut i: usize = 0;
    while i < rows.len()
        invariant
            i <= rows.len(),
            table == table_texts(rows@),
            fields@.len() == i,
            forall|k: int| 0 <= k < i ==> (#[trigger] table[k]).len() > index,
            forall|k: int| 0 <= k < i ==> (#[trigger] fields@[k])@ == table[k][index as int],
        decreases rows.len() - i,
    {
        if rows[i].len() <= index {
            proof {
                assert(is_first_short_row(table, index as int, i as int));
                assert forall|row: int| is_first_short_row(table, index as int, row) implies row
                    == i by {
                    if row < i {
                        assert(table[row].len() > index);
                    }
                    if row > i {
                        assert(table[i as int].len() > index);
                    }
                }
            }
            return Err(InputError::MissingField { row: i });
        }
        fields.push(rows[i][index].clone());
        i = i + 1;
    }
    proof {
        assert forall|row: int| !is_first_short_row(table, index as int, row) by {
            if 0 <= row < table.len() {
                assert(table[row].len() > index);
            }
        }
        assert(texts(fields@) =~= Seq::new(table.len(), |k: int| table[k][index as int]));
    }
    Ok(fields)
}

/// Takes the column of measurements from the input `data`: the second field
/// of every row after the header, as text.
pub fn measurement_fields(data: &[u8]) -> (result: Result<Vec<String>, InputError>)
    ensures
        column_texts(result) == measurement_column(data@),
{
    match read_rows(data, true) {
        Ok(rows) => select_column(&rows, MEASUREMENT_FIELD),
        Err(_) => Err(InputError::Malformed),
    }
}

} // verus!
