//! Index records: one line of an index file, split into fields, becomes one
//! book record; the records of one index file become one batch of bulk
//! upsert operations.
use vstd::prelude::*;

use crate::text::{
    Delimiter, number_or_zero, parse_or_zero, pieces, split_all, split_on, split_pieces, views,
};

verus! {

/// The number of fields that one index line carries.
pub const FIELD_COUNT: usize = 12;

/// The character that separates the fields of an index line.
pub open spec fn field_separator() -> char {
    '\u{4}'
}

/// The character that separates names inside the author and genre fields.
pub open spec fn name_separator() -> char {
    ':'
}

/// One catalog entry.
pub struct BookRecord {
    pub title: String,
    pub authors: Vec<String>,
    pub genres: Vec<String>,
    pub series: String,
    pub series_number: i32,
    pub file: String,
    pub file_size: i32,
    pub lib_id: String,
    pub del: String,
    pub ext: String,
    pub date: String,
    pub lang: String,
    pub container: String,
}

/// What a book record holds, as plain values.
pub struct BookModel {
    pub title: Seq<char>,
    pub authors: Seq<Seq<char>>,
    pub genres: Seq<Seq<char>>,
    pub series: Seq<char>,
    pub series_number: i32,
    pub file: Seq<char>,
    pub file_size: i32,
    pub lib_id: Seq<char>,
    pub del: Seq<char>,
    pub ext: Seq<char>,
    pub date: Seq<char>,
    pub lang: Seq<char>,
    pub container: Seq<char>,
}

impl View for BookRecord {
    type V = BookModel;

    open spec fn view(&self) -> BookModel {
        BookModel {
            title: self.title@,
            authors: views(self.authors@),
            genres: views(self.genres@),
            series: self.series@,
            series_number: self.series_number,
            file: self.file@,
            file_size: self.file_size,
            lib_id: self.lib_id@,
            del: self.del@,
            ext: self.ext@,
            date: self.date@,
            lang: self.lang@,
            container: self.container@,
        }
    }
}

/// Why an index line gives no record.
#[derive(Clone, Copy, PartialEq, Eq, Structural, Debug)]
pub enum RecordError {
    /// The line has fewer fields than a record needs.
    TooFewFields,
}

/// The record that the fields `f` of an index line describe, in the book
/// archive `container`.
pub open spec fn book_of(f: Seq<Seq<char>>, container: Seq<char>) -> BookModel {
    BookModel {
        title: f[2],
        authors: pieces(f[0], Delimiter::Char(name_separator())),
        genres: pieces(f[1], Delimiter::Char(name_separator())),
        series: f[3],
        series_number: number_or_zero(f[4]),
        file: f[5],
        file_size: number_or_zero(f[6]),
        lib_id: f[7],
        del: f[8],
        ext: f[9],
        date: f[10],
        lang: f[11],
        container,
    }
}

/// The fields of an index line.
pub open spec fn line_fields(line: Seq<char>) -> Seq<Seq<char>> {
    split_on(line, Delimiter::Char(field_separator()))
}

/// The record that an index line describes, or `None` where it has too few fields.
pub open spec fn line_record(line: Seq<char>, container: Seq<char>) -> Option<BookModel> {
    if line_fields(line).len() >= FIELD_COUNT {
        Some(book_of(line_fields(line), container))
    } else {
        None
    }
}

/// Builds the record that `fields` describe. Numbers that do not parse become
/// 0; only a short list of fields is an error.
pub fn process_book(fields: &Vec<String>, container: &str) -> (r: Result<BookRecord, RecordError>)
    ensures
        match r {
            Ok(b) => fields@.len() >= FIELD_COUNT && b@ == book_of(views(fields@), container@),
            Err(e) => fields@.len() < FIELD_COUNT && e == RecordError::TooFewFields,
        },
{
    if fields.len() < FIELD_COUNT {
        return Err(RecordError::TooFewFields);
    }
    let ghost f = views(fields@);
    assert(f[0] == fields@[0]@ && f[1] == fields@[1]@ && f[2] == fields@[2]@);
    assert(f[3] == fields@[3]@ && f[4] == fields@[4]@ && f[5] == fields@[5]@);
    assert(f[6] == fields@[6]@ && f[7] == fields@[7]@ && f[8] == fields@[8]@);
    assert(f[9] == fields@[9]@ && f[10] == fields@[10]@ && f[11] == fields@[11]@);
    let b = BookRecord {
        title: fields[2].clone(),
        authors: split_pieces(fields[0].as_str(), Delimiter::Char(':')),
        genres: split_pieces(fields[1].as_str(), Delimiter::Char(':')),
        series: fields[3].clone(),
        series_number: parse_or_zero(fields[4].as_str()),
        file: fields[5].clone(),
        file_size: parse_or_zero(fields[6].as_str()),
        lib_id: fields[7].clone(),
        del: fields[8].clone(),
        ext: fields[9].clone(),
        date: fields[10].clone(),
        lang: fields[11].clone(),
        container: String::from_str(container),
    };
    Ok(b)
}

/// Reads one index line into the record it describes.
pub fn parse_line(line: &str, container: &str) -> (r: Result<BookRecord, RecordError>)
    ensures
        match r {
            Ok(b) => line_record(line@, container@) == Some(b@),
            Err(e) => line_record(line@, container@) is None && e == RecordError::TooFewFields,
        },
{
    let fields = split_all(line, Delimiter::Char('\u{4}'));
    process_book(&fields, container)
}

pub open spec fn ends_with(s: Seq<char>, suffix: Seq<char>) -> bool {
    s.len() >= suffix.len() && s.subrange(s.len() - suffix.len(), s.len() as int) == suffix
}

/// The suffix that marks an index file inside the collection's archive.
pub open spec fn index_suffix() -> Seq<char> {
    seq!['.', 'i', 'n', 'p']
}

/// The suffix of the book archive that an index file describes.
pub open spec fn archive_suffix() -> Seq<char> {
    seq!['.', 'z', 'i', 'p']
}

/// The book archive that the index file `name` describes: its name with the
/// index suffix replaced by the archive suffix; `None` for a file that is no
/// index file.
pub open spec fn container_of(name: Seq<char>) -> Option<Seq<char>> {
    if ends_with(name, index_suffix()) {
        Some(name.subrange(0, name.len() - 4) + archive_suffix())
    } else {
        None
    }
}

/// The book archive that the index file `name` describes, if it is one.
pub fn container_name(name: &str) -> (r: Option<String>)
    ensures
        r matches Some(c) ==> container_of(name@) == Some(c@),
        r is None ==> container_of(name@) is None,
{
    let suffix = ".inp";
    let zip = ".zip";
    proof {
        reveal_strlit(".inp");
        reveal_strlit(".zip");
    }
    assert(suffix@ =~= index_suffix());
    assert(zip@ =~= archive_suffix());
    let n = name.unicode_len();
    if n < 4 {
        return None;
    }
    let tail = name.substring_char(n - 4, n);
    let mut i: usize = 0;
    while i < 4
        invariant
            tail@.len() == 4,
            n == name@.len(),
            n >= 4,
            tail@ == name@.subrange(n - 4, n as int),
            suffix@ == index_suffix(),
            i <= 4,
            forall|k: int| 0 <= k < i ==> tail@[k] == suffix@[k],
        decreases 4 - i,
    {
        if tail.get_char(i) != suffix.get_char(i) {
            assert(tail@[i as int] != index_suffix()[i as int]);
            return None;
        }
        i = i + 1;
    }
    assert(tail@ =~= index_suffix());
    let mut c = String::from_str(name.substring_char(0, n - 4));
    c.append(zip);
    Some(c)
}

/// The header of one bulk upsert operation.
pub struct BulkHeader {
    pub index: String,
    pub doc_type: String,
    pub id: String,
}

/// One bulk upsert operation: where the document goes, and the document.
pub struct BulkOp {
    pub header: BulkHeader,
    pub doc: BookRecord,
}

/// The document type under which books are stored.
pub open spec fn book_type() -> Seq<char> {
    seq!['b', 'o', 'o', 'k']
}

/// Relies on uuid::Uuid::new_v4 for a fresh random identifier, written in its
/// hyphenated form of 36 characters.
#[verifier::external_body]
pub(crate) fn new_document_id() -> (r: String)
    ensures
        r@.len() == 36,
{
    uuid::Uuid::new_v4().hyphenated().to_string()
}

/// The operation `op` upserts the record that `line` describes into `index`.
pub open spec fn upserts(op: BulkOp, index: Seq<char>, line: Seq<char>, container: Seq<char>) -> bool {
    &&& op.header.index@ == index
    &&& op.header.doc_type@ == book_type()
    &&& op.header.id@.len() == 36
    &&& line_record(line, container) == Some(op.doc@)
}

/// Turns the lines of one index file into bulk upsert operations for `index`,
/// each under a fresh identifier. A line with too few fields fails the batch.
pub fn index_batch(index: &str, container: &str, lines: &Vec<String>) -> (r: Result<
    Vec<BulkOp>,
    RecordError,
>)
    ensures
        match r {
            Ok(ops) => ops@.len() == lines@.len() && forall|i: int|
                0 <= i < lines@.len() ==> upserts(
                    #[trigger] ops@[i],
                    index@,
                    lines@[i]@,
                    container@,
                ),
            Err(e) => e == RecordError::TooFewFields && exists|i: int|
                0 <= i < lines@.len() && line_record(#[trigger] lines@[i]@, container@) is None,
        },
{
    let mut ops: Vec<BulkOp> = Vec::new();
    let mut i: usize = 0;
    while i < lines.len()
        invariant
            i <= lines@.len(),
            ops@.len() == i,
            forall|k: int| 0 <= k < i ==> upserts(#[trigger] ops@[k], index@, lines@[k]@, container@),
        decreases lines@.len() - i,
    {
        let doc = match parse_line(lines[i].as_str(), container) {
            Ok(b) => b,
            Err(e) => {
                assert(line_record(lines@[i as int]@, container@) is None);
                return Err(e);
            },
        };
        let book = "book";
        proof {
            reveal_strlit("book");
        }
        assert(book@ =~= book_type());
        let header = BulkHeader {
            index: String::from_str(index),
            doc_type: String::from_str(book),
            id: new_document_id(),
        };
        ops.push(BulkOp { header, doc });
        i = i + 1;
    }
    Ok(ops)
}

/// Appends one operation to a bulk body: the header line, then the document
/// line, each ended by a newline.
pub fn push_bulk_op(bulk: &mut String, header: &str, doc: &str)
    ensures
        final(bulk)@ == old(bulk)@ + header@ + seq!['\n'] + doc@ + seq!['\n'],
{
    let nl = "\n";
    proof {
        reveal_strlit("\n");
    }
    bulk.append(header);
    bulk.append(nl);
    bulk.append(doc);
    bulk.append(nl);
    assert(final(bulk)@ =~= old(bulk)@ + header@ + seq!['\n'] + doc@ + seq!['\n']);
}

/// A line with every field yields a record whatever its numeric fields
/// hold: a series number or file size that does not parse becomes 0.
pub proof fn lemma_numbers_fall_back_to_zero(line: Seq<char>, container: Seq<char>)
    requires
        line_fields(line).len() >= FIELD_COUNT,
    ensures
        line_record(line, container) is Some,
        crate::text::parsed_i32(line_fields(line)[4]) is None ==> line_record(
            line,
            container,
        )->Some_0.series_number == 0,
        crate::text::parsed_i32(line_fields(line)[6]) is None ==> line_record(
            line,
            container,
        )->Some_0.file_size == 0,
{
}

/// The names read from an author or genre field are its non-empty pieces
/// between colons, in the order they stand in the field.
pub proof fn lemma_names_in_order(s: Seq<char>)
    ensures
        pieces(s, Delimiter::Char(name_separator())) == split_on(
            s,
            Delimiter::Char(name_separator()),
        ).filter(|p: Seq<char>| p.len() > 0),
        forall|i: int|
            0 <= i < pieces(s, Delimiter::Char(name_separator())).len() ==> (#[trigger] pieces(
                s,
                Delimiter::Char(name_separator()),
            )[i]).len() > 0,
{
    lemma_drop_empty_is_filter(split_on(s, Delimiter::Char(name_separator())));
    crate::text::lemma_drop_empty(split_on(s, Delimiter::Char(name_separator())));
}

proof fn lemma_drop_empty_is_filter(ps: Seq<Seq<char>>)
    ensures
        crate::text::drop_empty(ps) == ps.filter(|p: Seq<char>| p.len() > 0),
    decreases ps.len(),
{
    reveal(Seq::filter);
    if ps.len() > 0 {
        lemma_drop_empty_is_filter(ps.drop_last());
    }
}

} // verus!
