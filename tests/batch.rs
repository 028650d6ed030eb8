use aureate::assets::{FirstLast, IdentifyFirstLast, OutputFormat};
use aureate::batch::{compose, tabulate};
use aureate::config::{ParserConfig, ProgramArgs, Verbosity};
use aureate::pipeline::RowRead;

fn strings(v: &[&str]) -> Vec<String> {
    v.iter().map(|s| s.to_string()).collect()
}

#[test]
fn tabulate_pads_to_widest_row() {
    let rows = vec![
        RowRead::Fields(strings(&["1"])),
        RowRead::Malformed,
        RowRead::Fields(strings(&["1", "2", "3"])),
    ];
    let (h, kept) = tabulate(strings(&["a"]), rows);
    assert_eq!(h, strings(&["a", "FIELD_2", "FIELD_3"]));
    assert_eq!(kept, vec![strings(&["1"]), strings(&["1", "2", "3"])]);
}

#[test]
fn tabulate_keeps_wide_header() {
    let (h, kept) = tabulate(strings(&["a", "b"]), vec![RowRead::Fields(strings(&["1"]))]);
    assert_eq!(h, strings(&["a", "b"]));
    assert_eq!(kept.len(), 1);
}

#[test]
fn compose_pairs_every_row() {
    let args = ProgramArgs::new(Verbosity::Off, OutputFormat::Json, Vec::new(), (None, false), ParserConfig::standard());
    let maps = compose(&args, (strings(&["a", "b"]), vec![strings(&["1"]), strings(&["2", "3", "4"])]));
    assert_eq!(maps.len(), 2);
    assert_eq!(serde_json::to_string(&maps[0]).unwrap(), r#"{"a":"1","b":""}"#);
    assert_eq!(serde_json::to_string(&maps[1]).unwrap(), r#"{"a":"2","b":"3","":"4"}"#);
}

#[test]
fn first_and_last_are_marked() {
    let mut it: FirstLast<u32> = vec![10u32, 20, 30].identify_first_last();
    assert_eq!(it.next(), Some((true, false, 10)));
    assert_eq!(it.next(), Some((false, false, 20)));
    assert_eq!(it.next(), Some((false, true, 30)));
    assert_eq!(it.next(), None);
    let mut one = vec!["x"].identify_first_last();
    assert_eq!(one.next(), Some((true, true, "x")));
    assert_eq!(one.next(), None);
    let mut none: FirstLast<u8> = Vec::new().identify_first_last();
    assert_eq!(none.next(), None);
}
