use data_server::store::db_name;

fn names(list: &[&str]) -> Vec<Vec<u8>> {
    list.iter().map(|n| n.as_bytes().to_vec()).collect()
}

fn next_name(list: &[&str]) -> String {
    String::from_utf8(db_name(&names(list)).expect("a next index exists")).unwrap()
}

#[test]
fn rotation_skips_gaps_and_foreign_files() {
    assert_eq!(next_name(&["000.db", "001.db", "005.db", "notes.txt"]), "006.db");
}

#[test]
fn rotation_in_empty_directory_starts_at_zero() {
    assert_eq!(next_name(&[]), "000.db");
}

#[test]
fn rotation_extension_is_case_insensitive() {
    assert_eq!(next_name(&["7.DB"]), "008.db");
    assert_eq!(next_name(&["3.Db", "4.dB"]), "005.db");
}

#[test]
fn rotation_ignores_non_numeric_stems() {
    assert_eq!(next_name(&["abc.db", "12x.db", "x12.db", "1.2.db"]), "000.db");
}

#[test]
fn rotation_ignores_names_without_db_extension() {
    assert_eq!(next_name(&["9.db9", "9.d", "9", "9.sqlite", "9."]), "000.db");
}

#[test]
fn rotation_ignores_hidden_names() {
    // a name that is all extension has no stem to number
    assert_eq!(next_name(&[".db"]), "000.db");
}

#[test]
fn rotation_accepts_unpadded_and_long_stems() {
    assert_eq!(next_name(&["7.db"]), "008.db");
    assert_eq!(next_name(&["007.db"]), "008.db");
    assert_eq!(next_name(&["999.db"]), "1000.db");
    assert_eq!(next_name(&["1000.db"]), "1001.db");
    assert_eq!(next_name(&["18446744073709551614.db"]), "18446744073709551615.db");
}

#[test]
fn rotation_ignores_stems_beyond_64_bits() {
    assert_eq!(next_name(&["18446744073709551616.db"]), "000.db");
    assert_eq!(next_name(&["99999999999999999999999.db"]), "000.db");
}

#[test]
fn rotation_has_no_index_after_the_largest() {
    assert_eq!(db_name(&names(&["18446744073709551615.db"])), None);
}

#[test]
fn rotation_takes_the_maximum_not_the_count() {
    assert_eq!(next_name(&["041.db", "002.db", "040.db"]), "042.db");
}
