//! The catalogue of library documents: entries kept in path order, and the
//! counts of documents per category.

use vstd::prelude::*;

use crate::ordering::{lemma_sort_view, sort_by_key, vsort, Keyed};
use crate::text::{chars_of, str_eq};

verus! {

/// One document of the library as the scan found it.
pub struct FileEntry {
    pub path: String,
    pub relative_path: String,
    pub title: String,
    pub category: String,
    pub last_modified: String,
}

pub struct FileEntryV {
    pub path: Seq<char>,
    pub relative_path: Seq<char>,
    pub title: Seq<char>,
    pub category: Seq<char>,
    pub last_modified: Seq<char>,
}

pub open spec fn entry_v(e: FileEntry) -> FileEntryV {
    FileEntryV {
        path: e.path@,
        relative_path: e.relative_path@,
        title: e.title@,
        category: e.category@,
        last_modified: e.last_modified@,
    }
}

pub open spec fn entries_v(s: Seq<FileEntry>) -> Seq<FileEntryV> {
    s.map_values(|e: FileEntry| entry_v(e))
}

impl Keyed for FileEntry {
    open spec fn key_of(&self) -> Seq<char> {
        self.relative_path@
    }

    fn key(&self) -> (k: &str) {
        self.relative_path.as_str()
    }
}

// ─── Path order ─────────────────────────────────────────────────────────────

/// Sorts the entries by relative path, keeping the order of equal paths.
pub fn sort_entries(v: Vec<FileEntry>) -> (r: Vec<FileEntry>)
    ensures
        entries_v(r@) == vsort(entries_v(v@), |e: FileEntryV| e.relative_path),
{
    let ghost unsorted = v@;
    let sorted = sort_by_key(v);
    proof {
        lemma_sort_view(unsorted, |e: FileEntry| entry_v(e), |e: FileEntryV| e.relative_path);
    }
    sorted
}

// ─── Counts ─────────────────────────────────────────────────────────────────

/// How many entries name this category.
pub open spec fn count_category(cats: Seq<Seq<char>>, cat: Seq<char>) -> nat
    decreases cats.len(),
{
    if cats.len() == 0 {
        0
    } else {
        count_category(cats.drop_last(), cat) + if cats.last() == cat {
            1nat
        } else {
            0nat
        }
    }
}

proof fn lemma_count_le(cats: Seq<Seq<char>>, cat: Seq<char>)
    ensures
        count_category(cats, cat) <= cats.len(),
    decreases cats.len(),
{
    if cats.len() > 0 {
        lemma_count_le(cats.drop_last(), cat);
    }
}

/// The library's totals: all documents and those of each category.
pub struct LibraryStats {
    pub total_files: usize,
    pub guides: usize,
    pub references: usize,
    pub case_studies: usize,
}

pub open spec fn categories_v(s: Seq<FileEntry>) -> Seq<Seq<char>> {
    Seq::new(s.len(), |i: int| s[i].category@)
}

/// Counts the documents in all and per category (`guides`, `references`,
/// `case-studies`).
pub fn library_stats(files: &Vec<FileEntry>) -> (r: LibraryStats)
    ensures
        r.total_files == files@.len(),
        r.guides == count_category(categories_v(files@), "guides"@),
        r.references == count_category(categories_v(files@), "references"@),
        r.case_studies == count_category(categories_v(files@), "case-studies"@),
{
    let ghost cv = categories_v(files@);
    let mut guides: usize = 0;
    let mut references: usize = 0;
    let mut case_studies: usize = 0;
    let mut i: usize = 0;
    while i < files.len()
        invariant
            i <= files@.len(),
            cv == categories_v(files@),
            guides == count_category(cv.take(i as int), "guides"@),
            references == count_category(cv.take(i as int), "references"@),
            case_studies == count_category(cv.take(i as int), "case-studies"@),
        decreases files@.len() - i,
    {
        assert(cv.take(i + 1).drop_last() =~= cv.take(i as int));
        assert(cv.take(i + 1).last() == files@[i as int].category@);
        proof {
            lemma_count_le(cv.take(i as int), "guides"@);
            lemma_count_le(cv.take(i as int), "references"@);
            lemma_count_le(cv.take(i as int), "case-studies"@);
        }
        let c = files[i].category.as_str();
        if str_eq(c, "guides") {
            guides = guides + 1;
        }
        if str_eq(c, "references") {
            references = references + 1;
        }
        if str_eq(c, "case-studies") {
            case_studies = case_studies + 1;
        }
        i = i + 1;
    }
    assert(cv.take(files@.len() as int) =~= cv);
    LibraryStats { total_files: files.len(), guides, references, case_studies }
}


// ─── Which files are documents ──────────────────────────────────────────────

/// A hidden entry (its name starts with `.`): the scan does not descend
/// into it.
pub open spec fn hidden_spec(name: Seq<char>) -> bool {
    name.len() > 0 && name[0] == '.'
}

pub fn is_hidden(name: &str) -> (b: bool)
    ensures
        b == hidden_spec(name@),
{
    let v = chars_of(name);
    v.len() > 0 && v[0] == '.'
}

/// A file name whose extension (`Path::extension`: what follows the last
/// `.`, none when that `.` begins the name) is `md`.
pub open spec fn markdown_name_spec(name: Seq<char>) -> bool {
    exists|k: int|
        0 < k < name.len() && name[k] == '.' && (forall|j: int| k < j < name.len() ==> name[j] != '.')
            && #[trigger] name.skip(k + 1) == "md"@
}

pub fn is_markdown_name(name: &str) -> (b: bool)
    ensures
        b == markdown_name_spec(name@),
{
    let v = chars_of(name);
    let n = v.len();
    proof {
        reveal_strlit("md");
    }
    // The last `.` of the name, searched from the end.
    let mut k: usize = n;
    while k > 0 && v[k - 1] != '.'
        invariant
            k <= n,
            n == v@.len(),
            forall|j: int| k <= j < n ==> v@[j] != '.',
        decreases k,
    {
        k = k - 1;
    }
    if k <= 1 {
        // No `.`, or only one that begins the name.
        proof {
            assert forall|d: int| 0 < d < v@.len() && v@[d] == '.' && (forall|j: int|
                d < j < v@.len() ==> v@[j] != '.') implies #[trigger] v@.skip(d + 1) != "md"@ by {
                if k == 1 {
                    assert(d == 0 || d >= 1);
                }
            }
        }
        return false;
    }
    let dot = k - 1;
    let b = n - k == 2 && v[k] == 'm' && v[k + 1] == 'd';
    proof {
        if b {
            assert(v@.skip(dot + 1) =~= "md"@);
        } else {
            assert(v@.skip(dot + 1) != "md"@) by {
                if v@.skip(dot + 1) == "md"@ {
                    assert(v@.skip(dot + 1).len() == 2);
                    assert(v@.skip(dot + 1)[0] == v@[k as int]);
                    assert(v@.skip(dot + 1)[1] == v@[k + 1]);
                }
            }
        }
        assert forall|d: int| 0 < d < v@.len() && v@[d] == '.' && (forall|j: int|
            d < j < v@.len() ==> v@[j] != '.') implies d == dot by {
            if d < dot {
                assert(v@[dot as int] == '.');
            }
        }
    }
    b
}

} // verus!
