//! The options of a run, and the small decisions that are made from them.

use vstd::prelude::*;
use vstd::string::*;

verus! {

/// The options of one run.
#[derive(Debug)]
pub struct Arguments {
    /// The delimited file to read.
    pub input: String,
    /// Where the database goes; by default the input path with the extension `db`.
    pub output: Option<String>,
    /// Append rows to an existing database.
    pub append: bool,
    /// A column of the header to use as the index, or `auto` for a generated one.
    pub index_column: Option<String>,
    /// Whether the first record names the columns.
    pub use_header: bool,
    /// The field separator.
    pub delimiter: char,
    /// The table's name; by default the input file's name without its extension.
    pub table_name: Option<String>,
    /// The stem of generated column names.
    pub default_column_name: String,
}

/// The lower-case form of `s`, as `str::to_lowercase` gives it.
pub uninterp spec fn lower_of(s: Seq<char>) -> Seq<char>;

/// The final component of `path` without its extension, as
/// `std::path::Path::file_stem` gives it; `None` where there is none.
pub uninterp spec fn file_stem_of(path: Seq<char>) -> Option<Seq<char>>;

/// Relies on `str::to_lowercase`: the result depends on the characters alone.
#[verifier::external_body]
fn lowercase(s: &str) -> (r: String)
    ensures
        r@ == lower_of(s@),
{
    s.to_lowercase()
}

/// Relies on `std::path::Path::file_stem`: the file name of `path` without
/// its extension, which depends on the characters alone.
#[verifier::external_body]
fn basename(path: &str) -> (r: Option<String>)
    ensures
        r.deep_view() == file_stem_of(path@),
{
    std::path::Path::new(path).file_stem().and_then(|s| s.to_str()).map(String::from)
}

/// Whether `s` ends with `suffix`.
pub open spec fn ends_with(s: Seq<char>, suffix: Seq<char>) -> bool {
    suffix.len() <= s.len() && s.subrange(s.len() - suffix.len(), s.len() as int) == suffix
}

/// Whether a lower-case name ends with `.csv` or `.tsv`.
pub open spec fn data_suffix(lower: Seq<char>) -> bool {
    ends_with(lower, seq!['.', 'c', 's', 'v']) || ends_with(lower, seq!['.', 't', 's', 'v'])
}

fn ends_with_str(s: &str, suffix: &str) -> (r: bool)
    ensures
        r == ends_with(s@, suffix@),
{
    let n = s.unicode_len();
    let m = suffix.unicode_len();
    if m > n {
        return false;
    }
    let mut i: usize = 0;
    while i < m
        invariant
            n == s@.len(),
            m == suffix@.len(),
            m <= n,
            i <= m,
            forall|j: int| 0 <= j < i ==> s@[n - m + j] == suffix@[j],
        decreases m - i,
    {
        if s.get_char(n - m + i) != suffix.get_char(i) {
            assert(s@.subrange(n - m, n as int)[i as int] != suffix@[i as int]);
            return false;
        }
        i = i + 1;
    }
    assert(s@.subrange(n - m, n as int) =~= suffix@);
    true
}

/// Whether an already lower-cased name ends with `.csv` or `.tsv`.
pub fn has_data_suffix(lower: &str) -> (r: bool)
    ensures
        r == data_suffix(lower@),
{
    proof {
        reveal_strlit(".csv");
        reveal_strlit(".tsv");
    }
    assert(".csv"@ =~= seq!['.', 'c', 's', 'v']);
    assert(".tsv"@ =~= seq!['.', 't', 's', 'v']);
    ends_with_str(lower, ".csv") || ends_with_str(lower, ".tsv")
}

/// Whether `name` names a file type that can be read: one that ends with
/// `.csv` or `.tsv`, in any case.
pub fn permissible_suffix(name: &str) -> (r: bool)
    ensures
        r == data_suffix(lower_of(name@)),
{
    let lower = lowercase(name);
    has_data_suffix(lower.as_str())
}

/// The table's name: the one given, else the input's file name without its
/// extension; `None` where neither exists.
pub fn table_name_for(args: &Arguments) -> (r: Option<String>)
    ensures
        r.deep_view() == match args.table_name {
            Some(t) => Some(t@),
            None => file_stem_of(args.input@),
        },
{
    match &args.table_name {
        Some(t) => Some(t.clone()),
        None => basename(args.input.as_str()),
    }
}

/// The word that asks for a generated index column.
pub open spec fn auto_word() -> Seq<char> {
    seq!['a', 'u', 't', 'o']
}

/// Whether the index column asked for can be had: none is asked for, a
/// generated one is, or the header has a column of that name.
pub open spec fn index_column_ok(index_column: Option<Seq<char>>, header: Seq<Seq<char>>) -> bool {
    match index_column {
        None => true,
        Some(c) => c == auto_word() || header.contains(c),
    }
}

/// Whether the index column asked for can be had.
pub fn index_column_valid(index_column: &Option<String>, header: &Vec<&str>) -> (r: bool)
    ensures
        r == index_column_ok(index_column.deep_view(), header@.map_values(|s: &str| s@)),
{
    proof {
        reveal_strlit("auto");
    }
    match index_column {
        None => true,
        Some(c) => {
            let auto = String::from_str("auto");
            assert("auto"@ =~= auto_word());
            if c.eq(&auto) {
                return true;
            }
            let ghost names = header@.map_values(|s: &str| s@);
            assert(index_column.deep_view() == Some(c@));
            let mut i: usize = 0;
            while i < header.len()
                invariant
                    i <= header.len(),
                    names == header@.map_values(|s: &str| s@),
                    index_column.deep_view() == Some(c@),
                    forall|j: int| 0 <= j < i ==> names[j] != c@,
                decreases header.len() - i,
            {
                let h = String::from_str(header[i]);
                if c.eq(&h) {
                    assert(names[i as int] == c@);
                    assert(names.contains(c@));
                    return true;
                }
                i = i + 1;
            }
            assert(!names.contains(c@));
            false
        },
    }
}

} // verus!
