use anytimeuniverse::moment_hash::epoch_field_text;
use anytimeuniverse::moment_hash::epoch_of_field;
use anytimeuniverse::moment_hash::join_moment_hash;
use anytimeuniverse::moment_hash::split_moment_hash;

fn strings(v: &[&str]) -> Vec<String> {
    v.iter().map(|s| s.to_string()).collect()
}

#[test]
fn join_trims_trailing_empty_fields() {
    assert_eq!(join_moment_hash("abc", &strings(&["12", "3.5", "", "", ""])), "abc-12-3.5");
    assert_eq!(join_moment_hash("abc", &strings(&["", "", "", "", ""])), "abc");
    assert_eq!(join_moment_hash("abc", &strings(&[])), "abc");
    assert_eq!(join_moment_hash("abc", &strings(&["1", "", "-.25"])), "abc-1---.25");
}

#[test]
fn negative_fields_double_the_dash() {
    assert_eq!(join_moment_hash("s", &strings(&["3", "-4"])), "s-3--4");
    assert_eq!(split_moment_hash("s-3--4"), Some(("s".to_string(), strings(&["3", "-4"]))));
    assert_eq!(split_moment_hash("s--4"), Some(("s".to_string(), strings(&["-4"]))));
}

#[test]
fn split_roundtrips_written_fields() {
    for parts in [
        strings(&["12", "3.5"]),
        strings(&["-12", ".5", "-.25", "2", ".5"]),
        strings(&["7"]),
        strings(&["1", "-"]),
    ] {
        let text = join_moment_hash("DnS1vSMX", &parts);
        assert_eq!(split_moment_hash(&text), Some(("DnS1vSMX".to_string(), parts)));
    }
}

#[test]
fn split_of_bare_seed() {
    assert_eq!(split_moment_hash("abc"), Some(("abc".to_string(), vec![])));
    assert_eq!(split_moment_hash(""), None);
    assert_eq!(split_moment_hash("-5"), None);
    assert_eq!(split_moment_hash("@5"), None);
}

#[test]
fn split_reads_old_separators() {
    assert_eq!(
        split_moment_hash("abc@1:2_3,4"),
        Some(("abc".to_string(), strings(&["1", "2", "3", "4"])))
    );
    assert_eq!(split_moment_hash("abc-"), Some(("abc".to_string(), strings(&[""]))));
}

#[test]
fn empty_epoch_field_is_not_recovered() {
    let text = join_moment_hash("abc", &strings(&["", "10.5"]));
    assert_eq!(text, "abc--10.5");
    assert_eq!(split_moment_hash(&text), Some(("abc".to_string(), strings(&["-10.5"]))));
}

#[test]
fn epoch_fields() {
    assert_eq!(epoch_of_field("-12"), -12);
    assert_eq!(epoch_of_field("+5"), 5);
    assert_eq!(epoch_of_field("42"), 42);
    assert_eq!(epoch_of_field("9223372036854775807"), i64::MAX);
    assert_eq!(epoch_of_field("-9223372036854775808"), i64::MIN);
    assert_eq!(epoch_of_field("9223372036854775808"), 0);
    assert_eq!(epoch_of_field("1.5"), 0);
    assert_eq!(epoch_of_field(""), 0);
    assert_eq!(epoch_of_field("-"), 0);
    assert_eq!(epoch_of_field(" 3"), 0);
}

#[test]
fn epoch_field_texts() {
    assert_eq!(epoch_field_text(0), "");
    assert_eq!(epoch_field_text(7), "7");
    assert_eq!(epoch_field_text(-120), "-120");
    assert_eq!(epoch_field_text(i64::MAX), "9223372036854775807");
    assert_eq!(epoch_field_text(i64::MIN), "-9223372036854775808");
    for e in [1i64, -1, 10, -99, 123456789, i64::MIN, i64::MAX] {
        assert_eq!(epoch_of_field(&epoch_field_text(e)), e);
        let text = join_moment_hash("seed", &vec![epoch_field_text(e), "2.5".to_string()]);
        let (_, fields) = split_moment_hash(&text).unwrap();
        assert_eq!(epoch_of_field(&fields[0]), e);
    }
}
