use csv2json::args::{args_from_options, Args};
use csv2json::convert::{convert_csv, convert_table};
use csv2json::mapping::ConvertError;

fn options(is_nulled: bool, is_keyed: bool) -> Args {
    Args { input: String::from("in.csv"), output: None, is_nulled, is_keyed }
}

#[test]
fn csv_text_to_array() {
    let text = "id,name,city\n1,Alice,NY\n2,Bob,LA\n";
    assert_eq!(
        convert_csv(text, &options(false, false)).unwrap(),
        r#"[{"id":"1","name":"Alice","city":"NY"},{"id":"2","name":"Bob","city":"LA"}]"#
    );
}

#[test]
fn csv_text_to_keyed_with_nulls() {
    let text = "id,name,city\n3,,\n";
    assert_eq!(
        convert_csv(text, &options(true, true)).unwrap(),
        r#"{"3":{"name":null,"city":null}}"#
    );
}

#[test]
fn csv_text_with_irregular_rows() {
    let text = "a,b,c\nx,y\np,q,r,s\n";
    assert_eq!(
        convert_csv(text, &options(false, false)).unwrap(),
        r#"[{"a":"x","b":"y"},{"a":"p","b":"q","c":"r"}]"#
    );
}

#[test]
fn csv_quoted_fields_are_unquoted() {
    let text = "a,b\n\"x,1\",\"say \"\"hi\"\"\"\n";
    assert_eq!(
        convert_csv(text, &options(false, false)).unwrap(),
        r#"[{"a":"x,1","b":"say \"hi\""}]"#
    );
}

#[test]
fn table_with_empty_row_keyed_fails() {
    let headers = vec![String::from("a")];
    let rows = vec![Vec::new()];
    assert_eq!(
        convert_table(&headers, &rows, &options(false, true)),
        Err(ConvertError::InvalidRow)
    );
    assert_eq!(convert_table(&headers, &rows, &options(false, false)).unwrap(), "[{}]");
}

#[test]
fn args_decision() {
    let free = vec![String::from("csv.csv")];
    let args = args_from_options(false, false, false, None, &free).unwrap();
    assert_eq!(args.input, "csv.csv");
    assert_eq!(args.output, None);
    assert_eq!(args.is_nulled, false);

    let args =
        args_from_options(false, true, true, Some(String::from("csv.json")), &free).unwrap();
    assert_eq!(args.input, "csv.csv");
    assert_eq!(args.output, Some(String::from("csv.json")));
    assert_eq!(args.is_nulled, true);
    assert_eq!(args.is_keyed, true);

    assert!(args_from_options(true, false, false, None, &free).is_none());
    assert!(args_from_options(false, false, false, None, &Vec::new()).is_none());
}
