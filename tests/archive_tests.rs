use flibooks::archive::{
    book_file_name, bundle_archive_name, bundle_dir_name, bundle_plan, get_out_file_name, locate,
    zip_entry_kind, ZipEntryKind,
};
use flibooks::record::BookRecord;

fn book(authors: &[&str], title: &str, ser_no: i32) -> BookRecord {
    BookRecord {
        title: title.to_string(),
        authors: authors.iter().map(|s| s.to_string()).collect(),
        genres: vec!["sf".to_string()],
        series: "Dune".to_string(),
        series_number: ser_no,
        file: "12345".to_string(),
        file_size: 10,
        lib_id: "1".to_string(),
        del: "0".to_string(),
        ext: "fb2".to_string(),
        date: "2010".to_string(),
        lang: "en".to_string(),
        container: "f.fb2-1-2.zip".to_string(),
    }
}

#[test]
fn out_name_with_series_number() {
    let b = book(&["Herbert,Frank,", " Anderson,Kevin, "], "Dune Messiah", 2);
    assert_eq!(get_out_file_name(&b), "Herbert,Frank, Anderson,Kevin - [2] Dune Messiah.fb2");
}

#[test]
fn out_name_without_series_number() {
    assert_eq!(get_out_file_name(&book(&["A"], "T", 0)), "A - T.fb2");
    assert_eq!(get_out_file_name(&book(&["A"], "T", -3)), "A - T.fb2");
    assert_eq!(get_out_file_name(&book(&[], "T", 0)), " - T.fb2");
    assert_eq!(get_out_file_name(&book(&["A"], "T", 1234567)), "A - [1234567] T.fb2");
}

#[test]
fn out_name_truncates_long_authors() {
    let long = "Ж".repeat(150);
    let name = get_out_file_name(&book(&[&long], "T", 0));
    let expected = format!("{}\u{2026} - T.fb2", "Ж".repeat(100));
    assert_eq!(name, expected);
    let exact = "a".repeat(100);
    assert_eq!(get_out_file_name(&book(&[&exact], "T", 0)), format!("{} - T.fb2", exact));
}

#[test]
fn file_name_and_location() {
    let b = book(&["A"], "T", 1);
    assert_eq!(book_file_name(&b), "12345.fb2");
    let l = locate(&b);
    assert_eq!(l.container, "f.fb2-1-2.zip");
    assert_eq!(l.inner_name, "12345.fb2");
    assert_eq!(l.out_name, "A - [1] T.fb2");
}

#[test]
fn bundle_skips_unresolved_books() {
    let found = vec![Some(book(&["A"], "One", 0)), None, Some(book(&["B"], "Two", 3))];
    let plan = bundle_plan(&found);
    assert_eq!(plan.len(), 2);
    assert_eq!(plan[0].out_name, "A - One.fb2");
    assert_eq!(plan[1].out_name, "B - [3] Two.fb2");
    assert!(bundle_plan(&vec![None, None]).is_empty());
}

#[test]
fn zip_entries() {
    assert_eq!(zip_entry_kind(true, "a.fb2"), ZipEntryKind::File);
    assert_eq!(zip_entry_kind(false, "sub"), ZipEntryKind::Directory);
    assert_eq!(zip_entry_kind(false, ""), ZipEntryKind::Skip);
}

#[test]
fn bundle_names() {
    let d = bundle_dir_name();
    assert!(d.starts_with("flibooks-"));
    assert_eq!(d.chars().count(), 45);
    assert_ne!(d, bundle_dir_name());
    assert_eq!(bundle_archive_name("/tmp/x/flibooks-1"), "/tmp/x/flibooks-1.zip");
}
