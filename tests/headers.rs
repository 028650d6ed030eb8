use aureate::headers::{placeholder_name, Headers};

fn strings(v: &[&str]) -> Vec<String> {
    v.iter().map(|s| s.to_string()).collect()
}

#[test]
fn widening_names_new_positions() {
    let mut h = Headers::new(strings(&["a", "b"]));
    let renamed = h.extend(4);
    assert_eq!(h.list_copy(), strings(&["a", "b", "__HEADER__3", "__HEADER__4"]));
    assert_eq!(h.length(), 4);
    assert!(renamed.is_empty());
}

#[test]
fn duplicate_header_is_renamed_once() {
    let mut h = Headers::new(strings(&["a", "a"]));
    let renamed = h.extend(0);
    assert_eq!(h.list_copy(), strings(&["a", "__HEADER__2"]));
    assert_eq!(renamed, vec![2]);
}

#[test]
fn narrower_count_keeps_length() {
    let mut h = Headers::new(strings(&["x", "y", "z"]));
    let renamed = h.extend(1);
    assert_eq!(h.length(), 3);
    assert_eq!(h.list_copy(), strings(&["x", "y", "z"]));
    assert!(renamed.is_empty());
}

#[test]
fn empty_header_row_widens_from_one() {
    let mut h = Headers::new(Vec::new());
    h.extend(2);
    assert_eq!(h.list_copy(), strings(&["__HEADER__1", "__HEADER__2"]));
}

#[test]
fn repeated_reconciliation_only_grows() {
    let mut h = Headers::new(strings(&["id"]));
    let mut last = h.length();
    for max in [0u64, 3, 2, 5, 1, 5] {
        h.extend(max);
        assert!(h.length() >= last);
        assert!(h.length() >= max);
        last = h.length();
        let names = h.list_copy();
        for i in 0..names.len() {
            for j in (i + 1)..names.len() {
                assert_ne!(names[i], names[j]);
            }
        }
    }
    assert_eq!(h.list_copy(), strings(&["id", "__HEADER__2", "__HEADER__3", "__HEADER__4", "__HEADER__5"]));
}

#[test]
fn replacement_is_registered_as_seen() {
    let mut h = Headers::new(strings(&["a", "a", "__HEADER__2"]));
    let renamed = h.extend(0);
    assert_eq!(h.list_copy(), strings(&["a", "__HEADER__2", "__HEADER__3"]));
    assert_eq!(renamed, vec![2, 3]);
}

#[test]
fn colliding_replacement_leaves_a_repeat() {
    let mut h = Headers::new(strings(&["__HEADER__3", "a", "a"]));
    h.extend(0);
    assert_eq!(h.list_copy(), strings(&["__HEADER__3", "a", "__HEADER__3"]));
}

#[test]
fn widened_placeholder_clashing_with_header_stays_repeated() {
    let mut h = Headers::new(strings(&["__HEADER__2"]));
    let renamed = h.extend(2);
    assert_eq!(h.list_copy(), strings(&["__HEADER__2", "__HEADER__2"]));
    assert_eq!(renamed, vec![2]);
}

#[test]
fn placeholder_spells_position_in_decimal() {
    assert_eq!(placeholder_name(0), "__HEADER__0");
    assert_eq!(placeholder_name(7), "__HEADER__7");
    assert_eq!(placeholder_name(10), "__HEADER__10");
    assert_eq!(placeholder_name(1203), "__HEADER__1203");
    assert_eq!(placeholder_name(u64::MAX), "__HEADER__18446744073709551615");
}

#[test]
fn clone_keeps_names() {
    let h = Headers::new(strings(&["p", "q"]));
    let c = h.clone();
    assert_eq!(c.list_copy(), h.list_copy());
    assert_eq!(c.length(), 2);
}
