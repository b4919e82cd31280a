use flibooks::record::{
    container_name, index_batch, parse_line, process_book, push_bulk_op, RecordError,
};

fn line(fields: &[&str]) -> String {
    fields.join("\u{4}")
}

fn sample() -> String {
    line(&[
        "Herbert,Frank,:", "sf:sf_epic:", "Dune Messiah", "Dune", "2", "12345", "512000",
        "77", "0", "fb2", "2010-01-01", "en",
    ])
}

#[test]
fn parses_every_field() {
    let b = parse_line(&sample(), "f.fb2-1-2.zip").unwrap();
    assert_eq!(b.title, "Dune Messiah");
    assert_eq!(b.authors, vec!["Herbert,Frank,"]);
    assert_eq!(b.genres, vec!["sf", "sf_epic"]);
    assert_eq!(b.series, "Dune");
    assert_eq!(b.series_number, 2);
    assert_eq!(b.file, "12345");
    assert_eq!(b.file_size, 512000);
    assert_eq!(b.lib_id, "77");
    assert_eq!(b.del, "0");
    assert_eq!(b.ext, "fb2");
    assert_eq!(b.date, "2010-01-01");
    assert_eq!(b.lang, "en");
    assert_eq!(b.container, "f.fb2-1-2.zip");
}

#[test]
fn bad_numbers_become_zero() {
    let l = line(&["A:", "g", "T", "", "", "f", "big", "1", "1", "fb2", "d", "ru"]);
    let b = parse_line(&l, "c.zip").unwrap();
    assert_eq!(b.series_number, 0);
    assert_eq!(b.file_size, 0);
    let l = line(&["A", "g", "T", "", "99999999999", "f", "-x", "1", "1", "fb2", "d", "ru"]);
    let b = parse_line(&l, "c.zip").unwrap();
    assert_eq!(b.series_number, 0);
    assert_eq!(b.file_size, 0);
}

#[test]
fn names_drop_empty_pieces_in_order() {
    let l = line(&["::B:A::C:", ":x::y", "T", "", "1", "f", "1", "1", "0", "fb2", "d", "en"]);
    let b = parse_line(&l, "c.zip").unwrap();
    assert_eq!(b.authors, vec!["B", "A", "C"]);
    assert_eq!(b.genres, vec!["x", "y"]);
}

#[test]
fn too_few_fields_is_an_error() {
    let l = line(&["A", "g", "T"]);
    assert_eq!(parse_line(&l, "c.zip").err(), Some(RecordError::TooFewFields));
    let fields: Vec<String> = vec!["a".to_string(); 11];
    assert_eq!(process_book(&fields, "c.zip").err(), Some(RecordError::TooFewFields));
}

#[test]
fn extra_fields_are_ignored() {
    let mut l = sample();
    l.push_str("\u{4}extra\u{4}");
    let b = parse_line(&l, "c.zip").unwrap();
    assert_eq!(b.lang, "en");
}

#[test]
fn container_replaces_index_suffix() {
    assert_eq!(container_name("fb2-000024-030559.inp"), Some("fb2-000024-030559.zip".to_string()));
    assert_eq!(container_name("a.inp.inp"), Some("a.inp.zip".to_string()));
    assert_eq!(container_name("collection.info"), None);
    assert_eq!(container_name("inp"), None);
    assert_eq!(container_name(".inp"), Some(".zip".to_string()));
}

#[test]
fn batch_gives_one_operation_per_line() {
    let lines = vec![sample(), sample(), sample()];
    let ops = index_batch("flibooks", "c.zip", &lines).unwrap();
    assert_eq!(ops.len(), 3);
    for op in &ops {
        assert_eq!(op.header.index, "flibooks");
        assert_eq!(op.header.doc_type, "book");
        assert_eq!(op.header.id.chars().count(), 36);
        assert_eq!(op.doc.title, "Dune Messiah");
        assert_eq!(op.doc.container, "c.zip");
    }
    assert_ne!(ops[0].header.id, ops[1].header.id);
    assert_ne!(ops[1].header.id, ops[2].header.id);
}

#[test]
fn batch_fails_on_a_short_line() {
    let lines = vec![sample(), "short".to_string()];
    assert_eq!(index_batch("i", "c.zip", &lines).err(), Some(RecordError::TooFewFields));
    assert!(index_batch("i", "c.zip", &Vec::new()).unwrap().is_empty());
}

#[test]
fn bulk_framing() {
    let mut bulk = String::new();
    push_bulk_op(&mut bulk, "{\"index\":{}}", "{\"title\":\"T\"}");
    push_bulk_op(&mut bulk, "h", "d");
    assert_eq!(bulk, "{\"index\":{}}\n{\"title\":\"T\"}\nh\nd\n");
}
