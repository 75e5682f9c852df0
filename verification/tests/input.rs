use process_stats::input::{measurement_fields, select_column, InputError, MEASUREMENT_FIELD};

fn strings(fields: &[&str]) -> Vec<String> {
    fields.iter().map(|field| field.to_string()).collect()
}

#[test]
fn measurement_is_the_second_field() {
    assert_eq!(MEASUREMENT_FIELD, 1);
    let data = b"time,power\n1,10.0\n2,20.0\n3,30.0\n";
    assert_eq!(measurement_fields(data), Ok(strings(&["10.0", "20.0", "30.0"])));
}

#[test]
fn header_row_is_left_out() {
    assert_eq!(measurement_fields(b"a,b\n"), Ok(Vec::new()));
    assert_eq!(measurement_fields(b""), Ok(Vec::new()));
    assert_eq!(measurement_fields(b"a,1.5\n"), Ok(Vec::new()));
    assert_eq!(measurement_fields(b"a,b\nx,1.5"), Ok(strings(&["1.5"])));
}

#[test]
fn quoted_fields_are_unquoted() {
    let data = b"name,value,unit\n\"a,b\",\"1.25\",W\nc,\"2\"\"5\",W\n";
    assert_eq!(measurement_fields(data), Ok(strings(&["1.25", "2\"5"])));
}

#[test]
fn fields_are_not_trimmed_or_parsed() {
    let data = b"t,p\n1, 7.5\n2,abc\n3,\n";
    assert_eq!(measurement_fields(data), Ok(strings(&[" 7.5", "abc", ""])));
}

#[test]
fn rows_of_unequal_length_are_malformed() {
    assert_eq!(measurement_fields(b"t,p\n1,2.0\n3\n"), Err(InputError::Malformed));
    assert_eq!(measurement_fields(b"t,p\n1,2.0,9\n"), Err(InputError::Malformed));
}

#[test]
fn text_that_is_not_utf8_is_malformed() {
    assert_eq!(measurement_fields(b"t,p\n1,\xff\xfe\n"), Err(InputError::Malformed));
}

#[test]
fn single_column_has_no_measurement() {
    assert_eq!(measurement_fields(b"t\n1\n2\n"), Err(InputError::MissingField { row: 0 }));
}

#[test]
fn select_column_takes_one_field_of_each_row() {
    let rows = vec![strings(&["a", "b", "c"]), strings(&["d", "e"]), strings(&["f", "g", "h"])];
    assert_eq!(select_column(&rows, 0), Ok(strings(&["a", "d", "f"])));
    assert_eq!(select_column(&rows, 1), Ok(strings(&["b", "e", "g"])));
    assert_eq!(select_column(&Vec::new(), 3), Ok(Vec::new()));
}

#[test]
fn select_column_reports_the_first_short_row() {
    let rows = vec![strings(&["a", "b", "c"]), strings(&["d", "e"]), strings(&["f"])];
    assert_eq!(select_column(&rows, 2), Err(InputError::MissingField { row: 1 }));
    assert_eq!(select_column(&rows, 3), Err(InputError::MissingField { row: 0 }));
    assert_eq!(select_column(&rows, usize::MAX), Err(InputError::MissingField { row: 0 }));
}
