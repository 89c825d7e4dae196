//! The statements that create the table and insert rows into it, and the
//! calls that hand them to SQLite.

use vstd::prelude::*;
use vstd::string::*;

use rusqlite::Connection;

verus! {

#[verifier::external_type_specification]
#[verifier::external_body]
pub struct ExConnection(rusqlite::Connection);

#[verifier::external_type_specification]
#[verifier::external_body]
pub struct ExError(rusqlite::Error);

/// One statement handed to SQLite: its text, the values bound to its
/// parameters in order, and what SQLite answered.
pub struct Sent {
    pub sql: Seq<char>,
    pub params: Seq<Seq<char>>,
    pub outcome: Result<usize, rusqlite::Error>,
}

/// A connection to an SQLite database, with a record of every statement
/// that the library has run on it.
pub struct Store {
    conn: Connection,
    sent: Ghost<Seq<Sent>>,
}

impl Store {
    /// The statements run on this store so far, oldest first.
    pub closed spec fn log(&self) -> Seq<Sent> {
        self.sent@
    }

    /// A store over `conn`, with nothing run yet.
    pub fn new(conn: Connection) -> (r: Store)
        ensures
            r.log() == Seq::<Sent>::empty(),
    {
        Store { conn, sent: Ghost(Seq::empty()) }
    }

    /// The connection, for reading the database.
    pub fn connection(&self) -> &Connection {
        &self.conn
    }

    /// Relies on `rusqlite::Connection::execute`: runs `sql` once with
    /// `params` bound in order to its parameters, and returns the number of
    /// rows it changed; the run is added to the log with that answer.
    #[verifier::external_body]
    fn execute(&mut self, sql: &str, params: &Vec<String>) -> (r: Result<usize, rusqlite::Error>)
        ensures
            final(self).log() == old(self).log().push(Sent { sql: sql@, params: params.deep_view(), outcome: r }),
    {
        self.conn.execute(sql, rusqlite::params_from_iter(params.iter()))
    }
}

/// Relies on `rusqlite::Connection::last_insert_rowid`: the rowid of the
/// latest successful insertion on the connection, 0 before any.
#[verifier::external_body]
fn last_insert_rowid(conn: &Connection) -> (r: i64) {
    conn.last_insert_rowid()
}

/// The answer to a write, with the number of changed rows left out: any
/// number counts as success.
pub open spec fn unit_outcome(o: Result<usize, rusqlite::Error>) -> Result<(), rusqlite::Error> {
    match o {
        Ok(_) => Ok(()),
        Err(e) => Err(e),
    }
}

/// The larger of two lengths.
pub open spec fn longer(a: nat, b: nat) -> nat {
    if a > b { a } else { b }
}

/// Whether `e` is the insertion of `values` into the named `columns` of
/// `table`: both padded with empty text to the longer of the two, one
/// parameter per value, bound in order, and `suffix` after the values.
pub open spec fn is_insert(e: Sent, table: Seq<char>, columns: Seq<Seq<char>>, values: Seq<Seq<char>>, suffix: Seq<char>) -> bool {
    let n = longer(columns.len(), values.len());
    &&& e.sql == insert_sql(table, padded(columns, seq![], n), n, suffix)
    &&& e.params == padded(values, seq![], n)
}

/// Whether `after` is `before` with one more statement, `e`, at the end.
pub open spec fn one_more(before: Seq<Sent>, after: Seq<Sent>) -> bool {
    after.len() == before.len() + 1 && after.drop_last() == before
}

/// The views of a sequence of string slices.
pub open spec fn strs(v: Seq<&str>) -> Seq<Seq<char>> {
    v.map_values(|s: &str| s@)
}

/// `name` with every double quote doubled.
pub open spec fn escaped(name: Seq<char>) -> Seq<char>
    decreases name.len(),
{
    if name.len() == 0 {
        seq![]
    } else {
        let c = name.last();
        escaped(name.drop_last()) + if c == '"' { seq!['"', '"'] } else { seq![c] }
    }
}

/// `name` as an SQL identifier: escaped and in double quotes.
pub open spec fn quoted(name: Seq<char>) -> Seq<char> {
    seq!['"'] + escaped(name) + seq!['"']
}

/// `parts` one after another, with `sep` between each two.
pub open spec fn joined(parts: Seq<Seq<char>>, sep: Seq<char>) -> Seq<char>
    decreases parts.len(),
{
    if parts.len() == 0 {
        seq![]
    } else if parts.len() == 1 {
        parts[0]
    } else {
        joined(parts.drop_last(), sep) + sep + parts.last()
    }
}

/// `n` parameter marks separated by commas.
pub open spec fn placeholders(n: nat) -> Seq<char> {
    joined(Seq::new(n, |i: int| seq!['?']), seq![',', ' '])
}

/// The definition of each column: its quoted name, a space, its type.
pub open spec fn column_defs(columns: Seq<(Seq<char>, Seq<char>)>) -> Seq<Seq<char>> {
    Seq::new(columns.len(), |i: int| quoted(columns[i].0) + seq![' '] + columns[i].1)
}

/// The statement that creates table `table` with an `id` key and `columns`,
/// unless a table of that name exists.
pub open spec fn create_table_sql(table: Seq<char>, columns: Seq<(Seq<char>, Seq<char>)>) -> Seq<char> {
    "CREATE TABLE IF NOT EXISTS "@ + quoted(table) + " (\"id\" INTEGER PRIMARY KEY AUTOINCREMENT"@
        + (if columns.len() == 0 { seq![] } else { ", "@ + joined(column_defs(columns), ", "@) })
        + ");"@
}

/// `values` extended with `pad` up to `pad_to` entries.
pub open spec fn padded(values: Seq<Seq<char>>, pad: Seq<char>, pad_to: nat) -> Seq<Seq<char>> {
    if pad_to > values.len() {
        values + Seq::new((pad_to - values.len()) as nat, |i: int| pad)
    } else {
        values
    }
}

/// The statement that inserts `n` values into the named columns of `table`,
/// followed by `suffix`.
pub open spec fn insert_sql(table: Seq<char>, columns: Seq<Seq<char>>, n: nat, suffix: Seq<char>) -> Seq<char> {
    "INSERT INTO "@ + quoted(table) + " ("@ + joined(Seq::new(columns.len(), |i: int| quoted(columns[i])), ", "@)
        + ") VALUES ("@ + placeholders(n) + ") "@ + suffix + ";"@
}

/// Appends `name`, with each double quote doubled, to `s`.
fn push_escaped(s: &mut String, name: &str)
    ensures
        final(s)@ == old(s)@ + escaped(name@),
{
    let n = name.unicode_len();
    let mut i: usize = 0;
    while i < n
        invariant
            n == name@.len(),
            i <= n,
            s@ == old(s)@ + escaped(name@.take(i as int)),
        decreases n - i,
    {
        proof {
            reveal_strlit("\"\"");
        }
        let c = name.get_char(i);
        assert(name@.take(i as int + 1).drop_last() =~= name@.take(i as int));
        assert(name@.take(i as int + 1).last() == c);
        if c == '"' {
            assert("\"\""@ =~= seq!['"', '"']);
            s.append("\"\"");
        } else {
            let one = name.substring_char(i, i + 1);
            assert(one@ =~= seq![c]);
            s.append(one);
        }
        assert(s@ =~= old(s)@ + escaped(name@.take(i as int + 1)));
        i = i + 1;
    }
    assert(name@.take(n as int) =~= name@);
}

/// Appends `name` as a quoted identifier to `s`.
fn push_quoted(s: &mut String, name: &str)
    ensures
        final(s)@ == old(s)@ + quoted(name@),
{
    proof {
        reveal_strlit("\"");
    }
    s.append("\"");
    push_escaped(s, name);
    s.append("\"");
    assert(final(s)@ =~= old(s)@ + quoted(name@));
}

/// The quoted form of `name`.
pub fn quote_identifier(name: &str) -> (r: String)
    ensures
        r@ == quoted(name@),
{
    let mut s = String::new();
    push_quoted(&mut s, name);
    assert(s@ =~= quoted(name@));
    s
}

/// `parts` joined with `sep`.
pub fn join(parts: &Vec<String>, sep: &str) -> (r: String)
    ensures
        r@ == joined(parts.deep_view(), sep@),
{
    let mut s = String::new();
    let mut i: usize = 0;
    while i < parts.len()
        invariant
            i <= parts.len(),
            s@ == joined(parts.deep_view().take(i as int), sep@),
        decreases parts.len() - i,
    {
        assert(parts.deep_view().take(i as int + 1).drop_last() =~= parts.deep_view().take(i as int));
        if i > 0 {
            s.append(sep);
        }
        s.append(parts[i].as_str());
        assert(s@ =~= joined(parts.deep_view().take(i as int + 1), sep@));
        i = i + 1;
    }
    assert(parts.deep_view().take(i as int) =~= parts.deep_view());
    s
}

/// `len` parameter marks separated by commas.
pub fn build_placeholder(len: usize) -> (r: String)
    ensures
        r@ == placeholders(len as nat),
{
    let mut s = String::new();
    let mut i: usize = 0;
    while i < len
        invariant
            i <= len,
            s@ == placeholders(i as nat),
        decreases len - i,
    {
        assert(Seq::new((i + 1) as nat, |j: int| seq!['?']).drop_last() =~= Seq::new(i as nat, |j: int| seq!['?']));
        proof {
            reveal_strlit("?");
            reveal_strlit(", ");
        }
        assert("?"@ =~= seq!['?']);
        assert(", "@ =~= seq![',', ' ']);
        if i > 0 {
            s.append(", ");
        }
        s.append("?");
        assert(s@ =~= placeholders((i + 1) as nat));
        i = i + 1;
    }
    s
}

/// `values` as owned strings, extended with `pad` up to `pad_to` entries.
pub fn pad_row(values: &[&str], pad: &str, pad_to: usize) -> (r: Vec<String>)
    ensures
        r.deep_view() == padded(strs(values@), pad@, pad_to as nat),
{
    let mut r: Vec<String> = Vec::new();
    let mut i: usize = 0;
    while i < values.len()
        invariant
            i <= values.len(),
            r.deep_view() =~= strs(values@).take(i as int),
        decreases values.len() - i,
    {
        let ghost before = r.deep_view();
        let v = String::from_str(values[i]);
        r.push(v);
        assert(r.deep_view() =~= before.push(v@));
        i = i + 1;
    }
    while i < pad_to
        invariant
            values.len() <= i,
            i <= pad_to || i == values.len(),
            r.deep_view() =~= strs(values@) + Seq::new((i - values.len()) as nat, |j: int| pad@),
        decreases pad_to - i,
    {
        let ghost before = r.deep_view();
        let v = String::from_str(pad);
        r.push(v);
        assert(r.deep_view() =~= before.push(v@));
        i = i + 1;
    }
    assert(r.deep_view() =~= padded(strs(values@), pad@, pad_to as nat));
    r
}

/// The statement that creates table `table_name` with an `id` key and the
/// given columns, each a name and a type.
pub fn create_table_statement(table_name: &str, table_columns: &Vec<(&str, &str)>) -> (r: String)
    ensures
        r@ == create_table_sql(table_name@, table_columns@.map_values(|c: (&str, &str)| (c.0@, c.1@))),
{
    let ghost cols = table_columns@.map_values(|c: (&str, &str)| (c.0@, c.1@));
    let mut defs: Vec<String> = Vec::new();
    let mut i: usize = 0;
    while i < table_columns.len()
        invariant
            i <= table_columns.len(),
            cols == table_columns@.map_values(|c: (&str, &str)| (c.0@, c.1@)),
            defs.deep_view() =~= column_defs(cols).take(i as int),
        decreases table_columns.len() - i,
    {
        proof {
            reveal_strlit(" ");
        }
        let (name, ty) = table_columns[i];
        let mut d = quote_identifier(name);
        d.append(" ");
        d.append(ty);
        assert(cols[i as int] == (name@, ty@));
        assert(d@ =~= column_defs(cols)[i as int]);
        let ghost before = defs.deep_view();
        defs.push(d);
        assert(defs.deep_view() =~= before.push(d@));
        i = i + 1;
    }
    let mut s = String::from_str("CREATE TABLE IF NOT EXISTS ");
    push_quoted(&mut s, table_name);
    s.append(" (\"id\" INTEGER PRIMARY KEY AUTOINCREMENT");
    if table_columns.len() > 0 {
        s.append(", ");
        let body = join(&defs, ", ");
        assert(defs.deep_view() =~= column_defs(cols));
        s.append(body.as_str());
    }
    s.append(");");
    assert(s@ =~= create_table_sql(table_name@, cols));
    s
}

/// The statement that inserts `n` values into the named columns of
/// `table_name`, followed by `suffix`.
pub fn insert_statement(table_name: &str, columns: &Vec<String>, n: usize, suffix: &str) -> (r: String)
    ensures
        r@ == insert_sql(table_name@, columns.deep_view(), n as nat, suffix@),
{
    let mut names: Vec<String> = Vec::new();
    let mut i: usize = 0;
    while i < columns.len()
        invariant
            i <= columns.len(),
            names.deep_view() =~= Seq::new(i as nat, |j: int| quoted(columns.deep_view()[j])),
        decreases columns.len() - i,
    {
        let ghost before = names.deep_view();
        let q = quote_identifier(columns[i].as_str());
        names.push(q);
        assert(names.deep_view() =~= before.push(q@));
        i = i + 1;
    }
    let mut s = String::from_str("INSERT INTO ");
    push_quoted(&mut s, table_name);
    s.append(" (");
    let list = join(&names, ", ");
    s.append(list.as_str());
    s.append(") VALUES (");
    let marks = build_placeholder(n);
    s.append(marks.as_str());
    s.append(") ");
    s.append(suffix);
    s.append(";");
    assert(names.deep_view() =~= Seq::new(columns.deep_view().len(), |j: int| quoted(columns.deep_view()[j])));
    assert(s@ =~= insert_sql(table_name@, columns.deep_view(), n as nat, suffix@));
    s
}

/// Creates table `table_name` with an `id` key and the given columns, unless
/// a table of that name exists: exactly one statement, without parameters.
pub fn create_table(store: &mut Store, table_name: &str, table_columns: Vec<(&str, &str)>) -> (r: Result<(), rusqlite::Error>)
    ensures
        one_more(old(store).log(), final(store).log()),
        final(store).log().last().sql == create_table_sql(table_name@, table_columns@.map_values(|c: (&str, &str)| (c.0@, c.1@))),
        final(store).log().last().params == Seq::<Seq<char>>::empty(),
        r == unit_outcome(final(store).log().last().outcome),
{
    let query = create_table_statement(table_name, &table_columns);
    let params: Vec<String> = Vec::new();
    let ghost before = store.log();
    let result = store.execute(query.as_str(), &params);
    assert(params.deep_view() =~= Seq::<Seq<char>>::empty());
    assert(store.log().drop_last() =~= before);
    match result {
        Ok(_) => Ok(()),
        Err(e) => Err(e),
    }
}

/// The id that follows `last`, the rowid of the latest insertion: one more
/// than it where it lies in the range of `i32`, else 0.
pub fn next_rowid(last: i64) -> (r: usize)
    ensures
        r as int == if 0 <= last <= i32::MAX { last + 1 } else { 0 },
{
    if 0 <= last && last <= i32::MAX as i64 {
        last as usize + 1
    } else {
        0
    }
}

/// The id that the next insertion on `conn` is expected to get.
pub fn get_last_rowid(conn: &Connection) -> (r: usize)
    ensures
        r <= i32::MAX as usize + 1,
{
    next_rowid(last_insert_rowid(conn))
}

/// The suffix that follows the values: the where-clause, or nothing.
pub open spec fn suffix_of(where_clause: Option<&str>) -> Seq<char> {
    match where_clause {
        Some(w) => w@,
        None => seq![],
    }
}

/// Inserts one row into `table_name` with one statement: `columns` and
/// `values` are both padded with empty text to the longer of the two, and
/// parameter `j + 1` is bound to the `j`-th padded value; `where_clause`
/// follows the values. Any number of changed rows counts as success, and an
/// error of SQLite comes back as it is.
pub fn add_row(
    store: &mut Store,
    table_name: &str,
    columns: &[&str],
    values: &[&str],
    where_clause: Option<&str>,
) -> (r: Result<(), rusqlite::Error>)
    ensures
        one_more(old(store).log(), final(store).log()),
        is_insert(final(store).log().last(), table_name@, strs(columns@), strs(values@), suffix_of(where_clause)),
        r == unit_outcome(final(store).log().last().outcome),
{
    let longest = if columns.len() > values.len() { columns.len() } else { values.len() };
    let values = pad_row(values, "", longest);
    let columns = pad_row(columns, "", longest);
    proof {
        reveal_strlit("");
    }
    assert(""@ =~= Seq::<char>::empty());
    let suffix = match where_clause {
        Some(w) => w,
        None => "",
    };
    let query = insert_statement(table_name, &columns, longest, suffix);
    let ghost before = store.log();
    let result = store.execute(query.as_str(), &values);
    assert(store.log().drop_last() =~= before);
    match result {
        Ok(_) => Ok(()),
        Err(e) => Err(e),
    }
}

} // verus!
