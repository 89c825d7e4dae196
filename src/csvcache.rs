//! An in-memory copy of a delimited file: an optional header, the non-empty
//! records in file order, and the width of the widest of them.

use vstd::prelude::*;
use vstd::string::*;
use vstd::pervasive::VecAdditionalExecFns;

use crate::cli::Arguments;
use crate::naming::{generated_column_name, generated_name};

verus! {

/// The byte that starts a comment line.
pub const COMMENT_BYTE: u8 = 35;

/// The fields of the first record of `input`, as `csv` reads it with the given
/// delimiter and comment byte, or `None` where that record cannot be read.
pub uninterp spec fn csv_header_of(input: Seq<u8>, delimiter: u8, comment: u8) -> Option<Seq<Seq<char>>>;

/// The records of `input`, as `csv` reads them with the given delimiter and
/// comment byte, each one's fields or `None` where it cannot be read; the first
/// record is left out when `has_headers` holds.
pub uninterp spec fn csv_records_of(input: Seq<u8>, delimiter: u8, comment: u8, has_headers: bool) -> Seq<Option<Seq<Seq<char>>>>;

/// Relies on `csv::Reader::headers`, on a reader that accepts rows of any
/// width: the first record of the input, which depends on the bytes, the
/// delimiter and the comment byte alone.
#[verifier::external_body]
fn read_header(input: &[u8], delimiter: u8, comment: u8) -> (r: Option<Vec<String>>)
    ensures
        r.deep_view() == csv_header_of(input@, delimiter, comment),
{
    let mut reader = csv::ReaderBuilder::new()
        .has_headers(true)
        .delimiter(delimiter)
        .flexible(true)
        .comment(Some(comment))
        .from_reader(input);
    reader.headers().ok().map(|h| h.iter().map(String::from).collect())
}

/// Relies on `csv::Reader::records`, on a reader that accepts rows of any
/// width: every record of the input in order, which depends on the bytes, the
/// delimiter, the comment byte and the header flag alone.
#[verifier::external_body]
fn read_records(input: &[u8], delimiter: u8, comment: u8, has_headers: bool) -> (r: Vec<Option<Vec<String>>>)
    ensures
        r.deep_view() == csv_records_of(input@, delimiter, comment, has_headers),
{
    let mut reader = csv::ReaderBuilder::new()
        .has_headers(has_headers)
        .delimiter(delimiter)
        .flexible(true)
        .comment(Some(comment))
        .from_reader(input);
    reader.records().map(|r| r.ok().map(|rec| rec.iter().map(String::from).collect())).collect()
}

/// The characters of the column type.
pub open spec fn text_type() -> Seq<char> {
    seq!['T', 'E', 'X', 'T']
}

/// The type that every column is given.
pub fn text_type_name() -> (r: &'static str)
    ensures
        r@ == text_type(),
{
    proof {
        reveal_strlit("TEXT");
    }
    "TEXT"
}

/// What a cache holds, as plain values.
pub struct CacheView {
    pub header: Option<Seq<Seq<char>>>,
    pub rows: Seq<Seq<Seq<char>>>,
    pub max_column_count: nat,
    pub default_column_name: Seq<char>,
}

/// The records that a cache keeps: those that were read and have a field.
pub open spec fn kept_rows(records: Seq<Option<Seq<Seq<char>>>>) -> Seq<Seq<Seq<char>>>
    decreases records.len(),
{
    if records.len() == 0 {
        seq![]
    } else {
        let prev = kept_rows(records.drop_last());
        let last = records.last();
        if last is Some && last->0.len() > 0 {
            prev.push(last->0)
        } else {
            prev
        }
    }
}

/// The length of the longest of `rows`, or 0.
pub open spec fn widest(rows: Seq<Seq<Seq<char>>>) -> nat
    decreases rows.len(),
{
    if rows.len() == 0 {
        0
    } else {
        let w = widest(rows.drop_last());
        if rows.last().len() > w { rows.last().len() } else { w }
    }
}

/// The names of a header: none where there is no header.
pub open spec fn names_of(header: Option<Seq<Seq<char>>>) -> Seq<Seq<char>> {
    match header {
        Some(h) => h,
        None => seq![],
    }
}

/// `h` extended with generated names up to `width` entries.
pub open spec fn padded_header(h: Seq<Seq<char>>, width: nat, prefix: Seq<char>) -> Seq<Seq<char>> {
    if width > h.len() {
        h + Seq::new((width - h.len()) as nat, |k: int| generated_name(prefix, (h.len() + k) as nat))
    } else {
        h
    }
}

/// The cache made from a header (if one is read) and the records that follow it.
pub open spec fn cache_of(
    header: Option<Seq<Seq<char>>>,
    records: Seq<Option<Seq<Seq<char>>>>,
    prefix: Seq<char>,
) -> CacheView {
    let rows = kept_rows(records);
    let base = names_of(header).len();
    let width = if widest(rows) > base { widest(rows) } else { base };
    CacheView {
        header: match header {
            Some(h) => Some(padded_header(h, width, prefix)),
            None => None,
        },
        rows,
        max_column_count: width,
        default_column_name: prefix,
    }
}

/// The byte that a delimiter character stands for: its low eight bits.
pub open spec fn delimiter_byte(c: char) -> u8 {
    (c as u32) as u8
}

/// The cache that loading `input` under `args` gives.
pub open spec fn loaded(args: Arguments, input: Seq<u8>) -> CacheView {
    let d = delimiter_byte(args.delimiter);
    cache_of(
        if args.use_header { csv_header_of(input, d, COMMENT_BYTE) } else { None },
        csv_records_of(input, d, COMMENT_BYTE, args.use_header),
        args.default_column_name@,
    )
}

/// The name of column `index`: the header's entry there, else a generated one.
pub open spec fn column_name(v: CacheView, index: nat) -> Seq<char> {
    if index < names_of(v.header).len() {
        names_of(v.header)[index as int]
    } else {
        generated_name(v.default_column_name, index)
    }
}

impl CacheView {
    /// Every row has a field, the header is as wide as the widest row, and
    /// the column count is the widest of the header and all rows.
    pub open spec fn well_formed(self) -> bool {
        &&& forall|i: int| 0 <= i < self.rows.len() ==> #[trigger] self.rows[i].len() > 0
        &&& forall|i: int| 0 <= i < self.rows.len() ==> #[trigger] self.rows[i].len() <= self.max_column_count
        &&& names_of(self.header).len() <= self.max_column_count
        &&& self.max_column_count == if widest(self.rows) > names_of(self.header).len() {
            widest(self.rows)
        } else {
            names_of(self.header).len()
        }
    }
}

/// A delimited file held in memory.
#[derive(Debug)]
pub struct CSVCache {
    header: Option<Vec<String>>,
    rows: Vec<Vec<String>>,
    max_column_count: usize,
    default_column_name: String,
}

impl View for CSVCache {
    type V = CacheView;

    closed spec fn view(&self) -> CacheView {
        CacheView {
            header: self.header.deep_view(),
            rows: self.rows.deep_view(),
            max_column_count: self.max_column_count as nat,
            default_column_name: self.default_column_name@,
        }
    }
}

proof fn lemma_widest_bounds(rows: Seq<Seq<Seq<char>>>)
    ensures
        forall|i: int| 0 <= i < rows.len() ==> #[trigger] rows[i].len() <= widest(rows),
        rows.len() == 0 || exists|i: int| 0 <= i < rows.len() && #[trigger] rows[i].len() == widest(rows),
    decreases rows.len(),
{
    if rows.len() > 0 {
        lemma_widest_bounds(rows.drop_last());
        assert forall|i: int| 0 <= i < rows.len() implies #[trigger] rows[i].len() <= widest(rows) by {
            if i < rows.len() - 1 {
                assert(rows[i] == rows.drop_last()[i]);
            }
        }
        if rows.len() > 1 && widest(rows) == widest(rows.drop_last()) {
            let j = choose|j: int| 0 <= j < rows.drop_last().len() && #[trigger] rows.drop_last()[j].len() == widest(rows.drop_last());
            assert(rows[j] == rows.drop_last()[j]);
        } else {
            assert(rows[rows.len() - 1].len() == widest(rows));
        }
    }
}

proof fn lemma_kept_rows_nonempty(records: Seq<Option<Seq<Seq<char>>>>)
    ensures
        forall|i: int| 0 <= i < kept_rows(records).len() ==> #[trigger] kept_rows(records)[i].len() > 0,
    decreases records.len(),
{
    if records.len() > 0 {
        lemma_kept_rows_nonempty(records.drop_last());
        let prev = kept_rows(records.drop_last());
        assert forall|i: int| 0 <= i < kept_rows(records).len() implies #[trigger] kept_rows(records)[i].len() > 0 by {
            if i < prev.len() {
                assert(kept_rows(records)[i] == prev[i]);
            }
        }
    }
}

/// A cache made from any header and records is well formed.
pub proof fn lemma_cache_of_well_formed(
    header: Option<Seq<Seq<char>>>,
    records: Seq<Option<Seq<Seq<char>>>>,
    prefix: Seq<char>,
)
    ensures
        cache_of(header, records, prefix).well_formed(),
{
    let v = cache_of(header, records, prefix);
    lemma_kept_rows_nonempty(records);
    lemma_widest_bounds(v.rows);
}

impl CSVCache {
    /// Builds a cache from a header, if one was read, and the records that
    /// followed it: records that could not be read or have no field are left
    /// out, and the header is extended with generated names up to the width of
    /// the widest record.
    pub fn from_records(
        header: Option<Vec<String>>,
        records: Vec<Option<Vec<String>>>,
        default_column_name: &str,
    ) -> (r: CSVCache)
        ensures
            r@ == cache_of(header.deep_view(), records.deep_view(), default_column_name@),
            r@.well_formed(),
    {
        let ghost recs = records.deep_view();
        let ghost hdr = header.deep_view();
        let mut records = records;
        let mut max_column_count: usize = match &header {
            Some(h) => h.len(),
            None => 0,
        };
        let mut rows: Vec<Vec<String>> = Vec::new();
        let n = records.len();
        let mut i: usize = 0;
        while i < n
            invariant
                n == records.len(),
                n == recs.len(),
                i <= n,
                forall|j: int| i <= j < n ==> #[trigger] records.deep_view()[j] == recs[j],
                rows.deep_view() == kept_rows(recs.take(i as int)),
                max_column_count as nat == if widest(rows.deep_view()) > names_of(header.deep_view()).len() {
                    widest(rows.deep_view())
                } else {
                    names_of(header.deep_view()).len()
                },
            decreases n - i,
        {
            let mut taken: Option<Vec<String>> = None;
            let ghost prev = records@;
            let ghost old_dv = records.deep_view();
            assert(records.deep_view()[i as int] == recs[i as int]);
            assert(prev[i as int].deep_view() == recs[i as int]);
            records.set_and_swap(i, &mut taken);
            proof {
                assert(taken == prev[i as int]);
                assert(taken.deep_view() == recs[i as int]);
                assert(recs.take(i as int + 1).drop_last() =~= recs.take(i as int));
                assert forall|j: int| i < j < n implies #[trigger] records.deep_view()[j] == recs[j] by {
                    assert(records@[j] == prev[j]);
                    assert(old_dv[j] == recs[j]);
                }
            }
            match taken {
                Some(record) => {
                    if record.len() > 0 {
                        if record.len() > max_column_count {
                            max_column_count = record.len();
                        }
                        let ghost before = rows.deep_view();
                        rows.push(record);
                        assert(rows.deep_view() =~= before.push(record.deep_view()));
                        assert(rows.deep_view().drop_last() =~= before);
                    }
                },
                None => {},
            }
            i = i + 1;
        }
        assert(recs.take(n as int) =~= recs);
        let ghost width = max_column_count as nat;
        let header = match header {
            Some(h) => {
                let mut h = h;
                let ghost h0 = h.deep_view();
                if max_column_count > h.len() {
                    let mut k: usize = h.len();
                    while k < max_column_count
                        invariant
                            h0.len() <= k <= max_column_count,
                            h.deep_view() =~= h0 + Seq::new((k - h0.len()) as nat, |j: int| generated_name(default_column_name@, (h0.len() + j) as nat)),
                        decreases max_column_count - k,
                    {
                        let name = generated_column_name(default_column_name, k);
                        let ghost before = h.deep_view();
                        h.push(name);
                        assert(h.deep_view() =~= before.push(name@));
                        k = k + 1;
                    }
                }
                assert(h.deep_view() =~= padded_header(h0, width, default_column_name@));
                Some(h)
            },
            None => None,
        };
        let r = CSVCache {
            header,
            rows,
            max_column_count,
            default_column_name: String::from_str(default_column_name),
        };
        proof {
            lemma_cache_of_well_formed(hdr, recs, default_column_name@);
        }
        assert(r@ =~= cache_of(hdr, recs, default_column_name@));
        r
    }

    /// Reads `input` as delimited text under `args`: the first record is the
    /// header where `args.use_header` holds (none where it cannot be read),
    /// the rest are the rows, and lines that start with `#` are comments.
    pub fn load(args: &Arguments, input: &[u8]) -> (r: CSVCache)
        ensures
            r@ == loaded(*args, input@),
            r@.well_formed(),
    {
        let delimiter = (args.delimiter as u32) as u8;
        let header = if args.use_header {
            read_header(input, delimiter, COMMENT_BYTE)
        } else {
            None
        };
        let records = read_records(input, delimiter, COMMENT_BYTE, args.use_header);
        CSVCache::from_records(header, records, args.default_column_name.as_str())
    }

    /// The length of the longest of the header and the rows.
    pub fn longest_row(&self) -> (r: usize)
        ensures
            r as nat == if widest(self@.rows) > names_of(self@.header).len() {
                widest(self@.rows)
            } else {
                names_of(self@.header).len()
            },
    {
        let mut max_len: usize = match &self.header {
            Some(h) => h.len(),
            None => 0,
        };
        let mut i: usize = 0;
        while i < self.rows.len()
            invariant
                i <= self.rows.len(),
                max_len as nat == if widest(self@.rows.take(i as int)) > names_of(self@.header).len() {
                    widest(self@.rows.take(i as int))
                } else {
                    names_of(self@.header).len()
                },
            decreases self.rows.len() - i,
        {
            assert(self@.rows.take(i as int + 1).drop_last() =~= self@.rows.take(i as int));
            if self.rows[i].len() > max_len {
                max_len = self.rows[i].len();
            }
            i = i + 1;
        }
        assert(self@.rows.take(i as int) =~= self@.rows);
        max_len
    }

    /// The rows, in file order.
    pub fn rows_iter(&self) -> (r: std::slice::Iter<'_, Vec<String>>)
        ensures
            vstd::std_specs::slice::into_iter_elts(r).map_values(|row: Vec<String>| row.deep_view()) == self@.rows,
    {
        let r = self.rows.iter();
        assert(vstd::std_specs::slice::into_iter_elts(r).map_values(|row: Vec<String>| row.deep_view()) =~= self@.rows);
        r
    }

    /// The header's names; none where there is no header.
    pub fn header(&self) -> (r: Vec<&str>)
        ensures
            r@.map_values(|s: &str| s@) == names_of(self@.header),
    {
        let mut r: Vec<&str> = Vec::new();
        match &self.header {
            Some(h) => {
                let mut i: usize = 0;
                while i < h.len()
                    invariant
                        i <= h.len(),
                        self.header == Some(*h),
                        r@.map_values(|s: &str| s@) =~= h.deep_view().take(i as int),
                    decreases h.len() - i,
                {
                    let ghost before = r@;
                    let name = h[i].as_str();
                    r.push(name);
                    assert(r@ == before.push(name));
                    assert(h.deep_view().take(i as int + 1) =~= h.deep_view().take(i as int).push(h@[i as int]@));
                    assert(r@.map_values(|s: &str| s@) =~= before.map_values(|s: &str| s@).push(h@[i as int]@));
                    i = i + 1;
                }
                assert(h.deep_view().take(i as int) =~= h.deep_view());
            },
            None => {},
        }
        assert(r@.map_values(|s: &str| s@) =~= names_of(self@.header));
        r
    }

    /// The value at `column` of each row, `None` for a row too short to have
    /// one; no values at all where `column` exceeds the column count.
    pub fn get_nth_in_rows(&self, column: usize) -> (r: Vec<Option<&str>>)
        ensures
            column > self@.max_column_count ==> r@.len() == 0,
            column <= self@.max_column_count ==> {
                &&& r@.len() == self@.rows.len()
                &&& forall|i: int| 0 <= i < r@.len() ==> {
                    if column < self@.rows[i].len() {
                        #[trigger] r@[i] is Some && r@[i]->0@ == self@.rows[i][column as int]
                    } else {
                        r@[i] is None
                    }
                }
            },
    {
        let mut r: Vec<Option<&str>> = Vec::new();
        if column > self.max_column_count {
            return r;
        }
        let mut i: usize = 0;
        while i < self.rows.len()
            invariant
                i <= self.rows.len(),
                r@.len() == i,
                forall|j: int| 0 <= j < i ==> {
                    if column < self@.rows[j].len() {
                        #[trigger] r@[j] is Some && r@[j]->0@ == self@.rows[j][column as int]
                    } else {
                        r@[j] is None
                    }
                },
            decreases self.rows.len() - i,
        {
            let row = &self.rows[i];
            assert(row.deep_view() == self@.rows[i as int]);
            if column < row.len() {
                r.push(Some(row[column].as_str()));
            } else {
                r.push(None);
            }
            i = i + 1;
        }
        r
    }

    /// The name and type of column `index`: the header's name there, or a
    /// generated one, and always `TEXT`.
    pub fn column_desc(&self, index: usize) -> (r: (String, String))
        ensures
            r.0@ == column_name(self@, index as nat),
            r.1@ == text_type(),
    {
        let name = match &self.header {
            Some(h) => {
                if index < h.len() {
                    h[index].clone()
                } else {
                    generated_column_name(self.default_column_name.as_str(), index)
                }
            },
            None => generated_column_name(self.default_column_name.as_str(), index),
        };
        (name, String::from_str(text_type_name()))
    }

    /// The name and type of every column, in order.
    pub fn column_descs(&self) -> (r: Vec<(String, String)>)
        ensures
            r@.len() == self@.max_column_count,
            forall|i: int| 0 <= i < r@.len() ==> {
                &&& (#[trigger] r@[i]).0@ == column_name(self@, i as nat)
                &&& r@[i].1@ == text_type()
            },
    {
        let mut r: Vec<(String, String)> = Vec::new();
        let mut i: usize = 0;
        while i < self.max_column_count
            invariant
                i <= self.max_column_count,
                r@.len() == i,
                forall|j: int| 0 <= j < i ==> {
                    &&& (#[trigger] r@[j]).0@ == column_name(self@, j as nat)
                    &&& r@[j].1@ == text_type()
                },
            decreases self.max_column_count - i,
        {
            r.push(self.column_desc(i));
            i = i + 1;
        }
        r
    }
}

impl Default for CSVCache {
    /// An empty cache with an empty header.
    fn default() -> (r: CSVCache)
        ensures
            r@ == cache_of(Some(seq![]), seq![], seq![]),
    {
        let r = CSVCache {
            header: Some(Vec::new()),
            rows: Vec::new(),
            max_column_count: 0,
            default_column_name: String::new(),
        };
        let ghost e: Seq<Option<Seq<Seq<char>>>> = seq![];
        assert(kept_rows(e) == Seq::<Seq<Seq<char>>>::empty());
        assert(widest(Seq::<Seq<Seq<char>>>::empty()) == 0);
        assert(r@.rows =~= Seq::<Seq<Seq<char>>>::empty());
        assert(r@.header->0 =~= Seq::<Seq<char>>::empty());
        assert(r@.default_column_name =~= Seq::<char>::empty());
        r
    }
}

/// After a load the column count is at least the header's length and at
/// least the length of every row.
pub proof fn lemma_load_column_count(args: Arguments, input: Seq<u8>)
    ensures
        names_of(loaded(args, input).header).len() <= loaded(args, input).max_column_count,
        forall|i: int| 0 <= i < loaded(args, input).rows.len() ==>
            #[trigger] loaded(args, input).rows[i].len() <= loaded(args, input).max_column_count,
{
    let d = delimiter_byte(args.delimiter);
    lemma_cache_of_well_formed(
        if args.use_header { csv_header_of(input, d, COMMENT_BYTE) } else { None },
        csv_records_of(input, d, COMMENT_BYTE, args.use_header),
        args.default_column_name@,
    );
}

/// After a load no row is empty: records without a field are left out.
pub proof fn lemma_load_drops_empty_rows(args: Arguments, input: Seq<u8>)
    ensures
        forall|i: int| 0 <= i < loaded(args, input).rows.len() ==> #[trigger] loaded(args, input).rows[i].len() > 0,
{
    let d = delimiter_byte(args.delimiter);
    lemma_cache_of_well_formed(
        if args.use_header { csv_header_of(input, d, COMMENT_BYTE) } else { None },
        csv_records_of(input, d, COMMENT_BYTE, args.use_header),
        args.default_column_name@,
    );
}

/// Without a header, a load gives no header names and every column name is
/// generated.
pub proof fn lemma_headerless_names(args: Arguments, input: Seq<u8>, index: nat)
    requires
        !args.use_header,
    ensures
        loaded(args, input).header is None,
        names_of(loaded(args, input).header) == Seq::<Seq<char>>::empty(),
        column_name(loaded(args, input), index) == generated_name(args.default_column_name@, index),
{
    assert(names_of(loaded(args, input).header) =~= Seq::<Seq<char>>::empty());
}

/// Column names depend on the cache and the index alone, and two caches that
/// differ only in their prefix give the same name to every column that the
/// header names, and each its own generated name to the others.
pub proof fn lemma_column_name_prefix(v: CacheView, w: CacheView, index: nat)
    requires
        v.header == w.header,
        v.rows == w.rows,
        v.max_column_count == w.max_column_count,
    ensures
        index < names_of(v.header).len() ==> column_name(v, index) == column_name(w, index),
        index >= names_of(v.header).len() ==> column_name(v, index) == generated_name(v.default_column_name, index)
            && column_name(w, index) == generated_name(w.default_column_name, index),
        v.default_column_name == w.default_column_name ==> column_name(v, index) == column_name(w, index),
{
    if v.default_column_name == w.default_column_name {
        assert(v == w);
    }
}

} // verus!
