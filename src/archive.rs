//! Where a book's bytes are found, and the names under which books are handed
//! out, alone or bundled into a new archive.
use vstd::prelude::*;

use crate::record::{BookModel, BookRecord, new_document_id};
use crate::text::{decimal, joined, push_decimal, trim_commas, trimmed, truncate, truncated, views};

verus! {

/// The number of characters of the author list that an output name keeps.
pub const AUTHORS_MAX_CHARS: usize = 100;

/// The name of a book's file inside its archive: its base name and extension.
pub open spec fn inner_file_name(b: BookModel) -> Seq<char> {
    b.file + seq!['.'] + b.ext
}

/// The author list of an output name: each name trimmed of commas and spaces,
/// joined by a comma and a space, and cut to its first hundred characters.
pub open spec fn authors_text(b: BookModel) -> Seq<char> {
    truncated(
        joined(b.authors.map_values(|a: Seq<char>| trimmed(a)), seq![',', ' ']),
        AUTHORS_MAX_CHARS as nat,
    )
}

/// The bracketed series number of an output name, present only for a
/// positive number.
pub open spec fn series_segment(b: BookModel) -> Seq<char> {
    if b.series_number > 0 {
        seq!['['] + decimal(b.series_number as nat) + seq![']', ' ']
    } else {
        Seq::empty()
    }
}

/// The name under which a book is handed out.
pub open spec fn out_file_name(b: BookModel) -> Seq<char> {
    authors_text(b) + seq![' ', '-', ' '] + series_segment(b) + b.title + seq!['.', 'f', 'b', '2']
}

/// The name of a book's file inside its archive.
pub fn book_file_name(book: &BookRecord) -> (r: String)
    ensures
        r@ == inner_file_name(book@),
{
    let dot = ".";
    proof {
        reveal_strlit(".");
    }
    let mut r = String::from_str(book.file.as_str());
    r.append(dot);
    r.append(book.ext.as_str());
    assert(r@ =~= inner_file_name(book@));
    r
}

/// The author names of `book`, trimmed and joined, before truncation.
fn joined_authors(book: &BookRecord) -> (r: String)
    ensures
        r@ == joined(book@.authors.map_values(|a: Seq<char>| trimmed(a)), seq![',', ' ']),
{
    let sep = ", ";
    proof {
        reveal_strlit(", ");
    }
    assert(sep@ =~= seq![',', ' ']);
    let ghost names = book@.authors.map_values(|a: Seq<char>| trimmed(a));
    let mut out = String::new();
    let mut i: usize = 0;
    while i < book.authors.len()
        invariant
            i <= book.authors@.len(),
            sep@ == seq![',', ' '],
            names == book@.authors.map_values(|a: Seq<char>| trimmed(a)),
            book@.authors == views(book.authors@),
            out@ == joined(names.subrange(0, i as int), sep@),
        decreases book.authors@.len() - i,
    {
        let ghost pre = names.subrange(0, i as int);
        let ghost next = names.subrange(0, i as int + 1);
        assert(next.drop_last() =~= pre);
        let name = trim_commas(book.authors[i].as_str());
        assert(name@ == names[i as int]);
        if i > 0 {
            out.append(sep);
        }
        out.append(name.as_str());
        if i == 0 {
            assert(out@ =~= next[0]);
        } else {
            assert(out@ =~= joined(pre, sep@) + sep@ + next.last());
        }
        i = i + 1;
    }
    assert(names.subrange(0, names.len() as int) =~= names);
    out
}

/// The name under which a book is handed out:
/// `<authors> - [<series number>] <title>.fb2`, the bracket only for a
/// positive series number.
pub fn get_out_file_name(book: &BookRecord) -> (r: String)
    ensures
        r@ == out_file_name(book@),
{
    let authors = joined_authors(book);
    let mut r = truncate(authors.as_str(), AUTHORS_MAX_CHARS);
    let dash = " - ";
    let open = "[";
    let close = "] ";
    let ext = ".fb2";
    proof {
        reveal_strlit(" - ");
        reveal_strlit("[");
        reveal_strlit("] ");
        reveal_strlit(".fb2");
    }
    r.append(dash);
    let ghost head = r@;
    if book.series_number > 0 {
        r.append(open);
        push_decimal(&mut r, book.series_number as u64);
        r.append(close);
    }
    assert(r@ =~= head + series_segment(book@));
    r.append(book.title.as_str());
    r.append(ext);
    assert(r@ =~= out_file_name(book@));
    r
}

/// Where one book's bytes are, and the name it is handed out under.
pub struct BookLocation {
    /// The archive that holds the book.
    pub container: String,
    /// The book's file inside that archive.
    pub inner_name: String,
    /// The name the book is handed out under.
    pub out_name: String,
}

pub struct LocationModel {
    pub container: Seq<char>,
    pub inner_name: Seq<char>,
    pub out_name: Seq<char>,
}

impl View for BookLocation {
    type V = LocationModel;

    open spec fn view(&self) -> LocationModel {
        LocationModel {
            container: self.container@,
            inner_name: self.inner_name@,
            out_name: self.out_name@,
        }
    }
}

pub open spec fn location_of(b: BookModel) -> LocationModel {
    LocationModel {
        container: b.container,
        inner_name: inner_file_name(b),
        out_name: out_file_name(b),
    }
}

/// Where a book's bytes are, and the name it is handed out under.
pub fn locate(book: &BookRecord) -> (r: BookLocation)
    ensures
        r@ == location_of(book@),
{
    BookLocation {
        container: String::from_str(book.container.as_str()),
        inner_name: book_file_name(book),
        out_name: get_out_file_name(book),
    }
}

pub open spec fn found_views(v: Seq<Option<BookRecord>>) -> Seq<Option<BookModel>> {
    v.map_values(|o: Option<BookRecord>| match o {
        Some(b) => Some(b@),
        None => None,
    })
}

/// The locations of the books that were found, in the order of the request;
/// the books that were not found are left out.
pub open spec fn bundle_locations(found: Seq<Option<BookModel>>) -> Seq<LocationModel>
    decreases found.len(),
{
    if found.len() == 0 {
        Seq::empty()
    } else {
        match found.last() {
            Some(b) => bundle_locations(found.drop_last()).push(location_of(b)),
            None => bundle_locations(found.drop_last()),
        }
    }
}

/// The number of books that were found.
pub open spec fn found_count(found: Seq<Option<BookModel>>) -> nat
    decreases found.len(),
{
    if found.len() == 0 {
        0
    } else {
        found_count(found.drop_last()) + if found.last() is Some {
            1nat
        } else {
            0nat
        }
    }
}

/// A bundle holds one file for each book that was found, whatever became of
/// the others.
pub proof fn lemma_bundle_len(found: Seq<Option<BookModel>>)
    ensures
        bundle_locations(found).len() == found_count(found),
    decreases found.len(),
{
    if found.len() > 0 {
        lemma_bundle_len(found.drop_last());
    }
}

/// The files of a bundle: the location of each book that was found, in the
/// order of the request. A book that was not found is skipped.
pub fn bundle_plan(found: &Vec<Option<BookRecord>>) -> (r: Vec<BookLocation>)
    ensures
        r@.map_values(|l: BookLocation| l@) == bundle_locations(found_views(found@)),
        r@.len() == found_count(found_views(found@)),
{
    let mut out: Vec<BookLocation> = Vec::new();
    let mut i: usize = 0;
    while i < found.len()
        invariant
            i <= found@.len(),
            out@.map_values(|l: BookLocation| l@) == bundle_locations(
                found_views(found@).subrange(0, i as int),
            ),
        decreases found@.len() - i,
    {
        let ghost pre = found_views(found@).subrange(0, i as int);
        let ghost next = found_views(found@).subrange(0, i as int + 1);
        assert(next.drop_last() =~= pre);
        match &found[i] {
            Some(b) => {
                let ghost before = out@;
                let l = locate(b);
                out.push(l);
                assert(out@.map_values(|l: BookLocation| l@) =~= before.map_values(
                    |l: BookLocation| l@,
                ).push(l@));
            },
            None => {},
        }
        i = i + 1;
    }
    assert(found_views(found@).subrange(0, found@.len() as int) =~= found_views(found@));
    proof {
        lemma_bundle_len(found_views(found@));
    }
    out
}

/// What goes into a new archive for one entry of a directory walk.
#[derive(Clone, Copy, PartialEq, Eq, Structural, Debug)]
pub enum ZipEntryKind {
    /// A file, stored with its contents.
    File,
    /// A directory, stored as an explicit entry.
    Directory,
    /// The walk's root, which gets no entry.
    Skip,
}

/// What goes into a new archive for a walked entry whose path relative to
/// the walk's root is `name`.
pub fn zip_entry_kind(is_file: bool, name: &str) -> (r: ZipEntryKind)
    ensures
        is_file ==> r == ZipEntryKind::File,
        !is_file && name@.len() > 0 ==> r == ZipEntryKind::Directory,
        !is_file && name@.len() == 0 ==> r == ZipEntryKind::Skip,
{
    if is_file {
        ZipEntryKind::File
    } else if name.unicode_len() != 0 {
        ZipEntryKind::Directory
    } else {
        ZipEntryKind::Skip
    }
}

/// The prefix of the directory into which a bundle is gathered.
pub open spec fn bundle_prefix() -> Seq<char> {
    seq!['f', 'l', 'i', 'b', 'o', 'o', 'k', 's', '-']
}

/// A fresh name for the directory into which a bundle is gathered: the
/// prefix followed by a random identifier.
pub fn bundle_dir_name() -> (r: String)
    ensures
        r@.len() == bundle_prefix().len() + 36,
        r@.subrange(0, bundle_prefix().len() as int) == bundle_prefix(),
{
    let prefix = "flibooks-";
    proof {
        reveal_strlit("flibooks-");
    }
    let mut r = String::from_str(prefix);
    let id = new_document_id();
    r.append(id.as_str());
    assert(r@.subrange(0, 9) =~= bundle_prefix());
    r
}

/// The name of the archive built from the directory `dir`.
pub fn bundle_archive_name(dir: &str) -> (r: String)
    ensures
        r@ == dir@ + seq!['.', 'z', 'i', 'p'],
{
    let ext = ".zip";
    proof {
        reveal_strlit(".zip");
    }
    let mut r = String::from_str(dir);
    r.append(ext);
    assert(r@ =~= dir@ + seq!['.', 'z', 'i', 'p']);
    r
}

/// An author list longer than the limit keeps exactly its first hundred
/// characters, whole characters rather than bytes, followed by one ellipsis;
/// a shorter one is kept whole.
pub proof fn lemma_authors_truncated(b: BookModel)
    ensures
        ({
            let full = joined(b.authors.map_values(|a: Seq<char>| trimmed(a)), seq![',', ' ']);
            let shown = authors_text(b);
            &&& full.len() > AUTHORS_MAX_CHARS ==> {
                &&& shown.len() == AUTHORS_MAX_CHARS + 1
                &&& shown.subrange(0, AUTHORS_MAX_CHARS as int) == full.subrange(
                    0,
                    AUTHORS_MAX_CHARS as int,
                )
                &&& shown[AUTHORS_MAX_CHARS as int] == crate::text::ellipsis()
            }
            &&& full.len() <= AUTHORS_MAX_CHARS ==> shown == full
            &&& out_file_name(b).subrange(0, shown.len() as int) == shown
        }),
{
    let full = joined(b.authors.map_values(|a: Seq<char>| trimmed(a)), seq![',', ' ']);
    let shown = authors_text(b);
    if full.len() > AUTHORS_MAX_CHARS {
        assert(shown.subrange(0, AUTHORS_MAX_CHARS as int) =~= full.subrange(
            0,
            AUTHORS_MAX_CHARS as int,
        ));
    }
    assert(out_file_name(b).subrange(0, shown.len() as int) =~= shown);
}

/// An output name carries the bracketed series number exactly where the
/// number is positive; otherwise the title follows the authors directly.
pub proof fn lemma_series_bracket(b: BookModel)
    ensures
        b.series_number > 0 ==> out_file_name(b) == authors_text(b) + seq![' ', '-', ' ', '[']
            + decimal(b.series_number as nat) + seq![']', ' '] + b.title + seq!['.', 'f', 'b', '2'],
        b.series_number <= 0 ==> out_file_name(b) == authors_text(b) + seq![' ', '-', ' ']
            + b.title + seq!['.', 'f', 'b', '2'],
{
    if b.series_number > 0 {
        assert(out_file_name(b) =~= authors_text(b) + seq![' ', '-', ' ', '['] + decimal(
            b.series_number as nat,
        ) + seq![']', ' '] + b.title + seq!['.', 'f', 'b', '2']);
    } else {
        assert(out_file_name(b) =~= authors_text(b) + seq![' ', '-', ' '] + b.title + seq![
            '.',
            'f',
            'b',
            '2',
        ]);
    }
}

} // verus!
