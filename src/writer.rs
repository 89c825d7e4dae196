//! Writing the rows of a file into a table, one insertion per row.

use vstd::prelude::*;
use vstd::pervasive::VecAdditionalExecFns;
use vstd::string::*;

use rusqlite::Connection;

use crate::naming::{generated_column_name, generated_name};
use crate::sql::{add_row, is_insert, longer, one_more, strs, unit_outcome, Sent, Store};

verus! {

/// The name of each of `width` columns: the given name where there is a
/// non-empty one, else a generated one.
pub open spec fn resolved_columns(columns: Seq<Seq<char>>, width: nat, prefix: Seq<char>) -> Seq<Seq<char>> {
    Seq::new(width, |i: int| if i < columns.len() && columns[i].len() > 0 { columns[i] } else { generated_name(prefix, i as nat) })
}

/// How many of `outcomes` succeeded.
pub open spec fn count_ok(outcomes: Seq<Result<(), rusqlite::Error>>) -> nat {
    outcomes.filter(|o: Result<(), rusqlite::Error>| o is Ok).len()
}

/// The columns and values of a row with the index column and value first.
pub open spec fn with_index(
    columns: Seq<Seq<char>>,
    values: Seq<Seq<char>>,
    index: Option<(Seq<char>, Seq<char>)>,
) -> (Seq<Seq<char>>, Seq<Seq<char>>) {
    match index {
        Some((c, v)) => (seq![c] + columns, seq![v] + values),
        None => (columns, values),
    }
}

/// The names of `width` columns: each given non-empty name is kept, and
/// the others are generated from `default_column_name`.
pub fn resolve_columns(columns: &Vec<&str>, width: usize, default_column_name: &str) -> (r: Vec<String>)
    ensures
        r.deep_view() == resolved_columns(columns@.map_values(|c: &str| c@), width as nat, default_column_name@),
{
    let ghost cols = columns@.map_values(|c: &str| c@);
    let mut r: Vec<String> = Vec::new();
    let mut i: usize = 0;
    while i < width
        invariant
            i <= width,
            cols == columns@.map_values(|c: &str| c@),
            r.deep_view() =~= resolved_columns(cols, width as nat, default_column_name@).take(i as int),
        decreases width - i,
    {
        let name = if i < columns.len() && !columns[i].is_empty() {
            String::from_str(columns[i])
        } else {
            generated_column_name(default_column_name, i)
        };
        assert(name@ == resolved_columns(cols, width as nat, default_column_name@)[i as int]);
        let ghost before = r.deep_view();
        r.push(name);
        assert(r.deep_view() =~= before.push(name@));
        i = i + 1;
    }
    r
}

fn borrow_all(v: &Vec<String>) -> (r: Vec<&str>)
    ensures
        strs(r@) == v.deep_view(),
{
    let mut r: Vec<&str> = Vec::new();
    let mut i: usize = 0;
    while i < v.len()
        invariant
            i <= v.len(),
            r@.map_values(|s: &str| s@) =~= v.deep_view().take(i as int),
        decreases v.len() - i,
    {
        let s = v[i].as_str();
        let ghost before = r@;
        r.push(s);
        assert(r@ == before.push(s));
        assert(r@.map_values(|s: &str| s@) =~= before.map_values(|s: &str| s@).push(s@));
        i = i + 1;
    }
    assert(v.deep_view().take(i as int) =~= v.deep_view());
    assert(strs(r@) =~= r@.map_values(|s: &str| s@));
    r
}

/// Inserts one row with one statement: each column without a name (or with
/// an empty one) gets its generated name, and values are padded with empty
/// text to the number of columns.
fn add_row_no_index(
    store: &mut Store,
    table_name: &str,
    columns: &Vec<&str>,
    values: Vec<&str>,
    default_column_name: &str,
) -> (r: Result<(), rusqlite::Error>)
    ensures
        one_more(old(store).log(), final(store).log()),
        is_insert(
            final(store).log().last(),
            table_name@,
            resolved_columns(strs(columns@), longer(columns@.len(), values@.len()), default_column_name@),
            strs(values@),
            seq![],
        ),
        r == unit_outcome(final(store).log().last().outcome),
{
    let width = if columns.len() > values.len() { columns.len() } else { values.len() };
    let names = resolve_columns(columns, width, default_column_name);
    let names = borrow_all(&names);
    assert(strs(columns@) =~= columns@.map_values(|c: &str| c@));
    add_row(store, table_name, names.as_slice(), values.as_slice(), None)
}

/// The columns and values with the index column and value, if any, first.
pub fn prepend_index<'a>(
    columns: Vec<&'a str>,
    values: Vec<&'a str>,
    index: Option<(&'a str, &'a str)>,
) -> (r: (Vec<&'a str>, Vec<&'a str>))
    ensures
        (strs(r.0@), strs(r.1@)) == with_index(
            strs(columns@),
            strs(values@),
            match index {
                Some((c, v)) => Some((c@, v@)),
                None => None,
            },
        ),
{
    match index {
        None => (columns, values),
        Some((index_column, index_value)) => {
            let ghost cols0 = columns@;
            let ghost vals0 = values@;
            let mut new_columns = vec![index_column];
            let mut columns = columns;
            new_columns.append(&mut columns);
            let mut new_values = vec![index_value];
            let mut values = values;
            new_values.append(&mut values);
            assert(strs(new_columns@) =~= seq![index_column@] + strs(cols0));
            assert(strs(new_values@) =~= seq![index_value@] + strs(vals0));
            (new_columns, new_values)
        },
    }
}

/// The index column and value as plain values.
pub open spec fn index_view(index: Option<(&str, &str)>) -> Option<(Seq<char>, Seq<char>)> {
    match index {
        Some((c, v)) => Some((c@, v@)),
        None => None,
    }
}

/// Inserts one row as `add_row_no_index` does, with the index column and
/// value first where there is one.
pub fn add_row_with_index(
    store: &mut Store,
    table_name: &str,
    columns: Vec<&str>,
    values: Vec<&str>,
    default_column_name: &str,
    index: Option<(&str, &str)>,
) -> (r: Result<(), rusqlite::Error>)
    ensures
        ({
            let (c, v) = with_index(strs(columns@), strs(values@), index_view(index));
            &&& one_more(old(store).log(), final(store).log())
            &&& is_insert(
                final(store).log().last(),
                table_name@,
                resolved_columns(c, longer(c.len(), v.len()), default_column_name@),
                v,
                seq![],
            )
            &&& r == unit_outcome(final(store).log().last().outcome)
        }),
{
    let (columns, values) = prepend_index(columns, values, index);
    add_row_no_index(store, table_name, &columns, values, default_column_name)
}

/// Inserts each of `rows` into `table_name` under `columns`, in order, with
/// one statement each, and returns the outcome of each: a row that fails
/// does not stop the rest.
pub fn write_rows(store: &mut Store, table_name: &str, columns: &Vec<&str>, rows: &Vec<Vec<String>>) -> (r: Vec<
    Result<(), rusqlite::Error>,
>)
    ensures
        r@.len() == rows@.len(),
        final(store).log().len() == old(store).log().len() + rows@.len(),
        final(store).log().take(old(store).log().len() as int) == old(store).log(),
        forall|i: int| 0 <= i < rows@.len() ==> {
            &&& is_insert(
                #[trigger] final(store).log()[old(store).log().len() + i],
                table_name@,
                strs(columns@),
                rows.deep_view()[i],
                seq![],
            )
            &&& r@[i] == unit_outcome(final(store).log()[old(store).log().len() + i].outcome)
        },
{
    let ghost start = old(store).log().len();
    let mut outcomes: Vec<Result<(), rusqlite::Error>> = Vec::new();
    let mut i: usize = 0;
    while i < rows.len()
        invariant
            i <= rows.len(),
            outcomes@.len() == i,
            start == old(store).log().len(),
            store.log().len() == start + i,
            store.log().take(start as int) == old(store).log(),
            forall|k: int| 0 <= k < i ==> {
                &&& is_insert(#[trigger] store.log()[start + k], table_name@, strs(columns@), rows.deep_view()[k], seq![])
                &&& outcomes@[k] == unit_outcome(store.log()[start + k].outcome)
            },
        decreases rows.len() - i,
    {
        let values = borrow_all(&rows[i]);
        let ghost before = store.log();
        let outcome = add_row(store, table_name, columns.as_slice(), values.as_slice(), None);
        outcomes.push(outcome);
        proof {
            assert(store.log().take(start as int) =~= before.take(start as int));
            assert forall|k: int| 0 <= k < i implies #[trigger] store.log()[start + k] == before[start + k] by {
                assert(store.log().drop_last()[start + k] == before[start + k]);
            }
            assert(store.log()[start + i] == store.log().last());
        }
        i = i + 1;
    }
    outcomes
}

/// The number of rows that were written.
pub fn records_written(outcomes: &Vec<Result<(), rusqlite::Error>>) -> (r: usize)
    ensures
        r as nat == count_ok(outcomes@),
{
    let mut n: usize = 0;
    let mut i: usize = 0;
    while i < outcomes.len()
        invariant
            i <= outcomes.len(),
            n as nat == count_ok(outcomes@.take(i as int)),
            n <= i,
        decreases outcomes.len() - i,
    {
        proof {
            let s = outcomes@.take(i as int + 1);
            assert(s.drop_last() =~= outcomes@.take(i as int));
            reveal(Seq::filter);
        }
        if outcomes[i].is_ok() {
            n = n + 1;
        }
        i = i + 1;
    }
    assert(outcomes@.take(i as int) =~= outcomes@);
    n
}

/// The records that have a field, in order.
pub open spec fn nonempty_rows(records: Seq<Seq<Seq<char>>>) -> Seq<Seq<Seq<char>>>
    decreases records.len(),
{
    if records.len() == 0 {
        seq![]
    } else {
        let prev = nonempty_rows(records.drop_last());
        if records.last().len() > 0 { prev.push(records.last()) } else { prev }
    }
}

/// The views of a sequence of records.
pub open spec fn record_views(records: Seq<Vec<&str>>) -> Seq<Seq<Seq<char>>> {
    records.map_values(|row: Vec<&str>| strs(row@))
}

/// The outcome of each statement of `log`, as a write reports it.
pub open spec fn write_outcomes(log: Seq<Sent>) -> Seq<Result<(), rusqlite::Error>> {
    log.map_values(|e: Sent| unit_outcome(e.outcome))
}

/// Inserts every record that has a field into `table_name`, in order and
/// with one statement each, as `add_row_no_index` does, and returns how many
/// of those insertions succeeded: a record that fails does not stop the rest.
/// Records are padded rather than skipped when their width differs from the
/// number of columns.
pub fn populate_table(
    store: &mut Store,
    table_name: &str,
    _index_column: Option<String>,
    records: Vec<Vec<&str>>,
    columns: &Vec<&str>,
    default_column_name: &str,
) -> (r: Result<usize, rusqlite::Error>)
    ensures
        ({
            let kept = nonempty_rows(record_views(records@));
            let start = old(store).log().len();
            &&& final(store).log().len() == start + kept.len()
            &&& final(store).log().take(start as int) == old(store).log()
            &&& forall|i: int| 0 <= i < kept.len() ==> is_insert(
                #[trigger] final(store).log()[start + i],
                table_name@,
                resolved_columns(strs(columns@), longer(columns@.len(), kept[i].len()), default_column_name@),
                kept[i],
                seq![],
            )
            &&& r is Ok
            &&& r->Ok_0 == count_ok(write_outcomes(final(store).log().skip(start as int)))
        }),
{
    let ghost rows = record_views(records@);
    let ghost start = old(store).log().len();
    let mut outcomes: Vec<Result<(), rusqlite::Error>> = Vec::new();
    let mut records = records;
    let n = records.len();
    let mut i: usize = 0;
    while i < n
        invariant
            n == records.len(),
            i <= n,
            n == rows.len(),
            start == old(store).log().len(),
            forall|j: int| i <= j < n ==> #[trigger] strs(records@[j]@) == rows[j],
            store.log().len() == start + nonempty_rows(rows.take(i as int)).len(),
            store.log().take(start as int) == old(store).log(),
            outcomes@ == write_outcomes(store.log().skip(start as int)),
            forall|k: int| 0 <= k < nonempty_rows(rows.take(i as int)).len() ==> is_insert(
                #[trigger] store.log()[start + k],
                table_name@,
                resolved_columns(strs(columns@), longer(columns@.len(), nonempty_rows(rows.take(i as int))[k].len()), default_column_name@),
                nonempty_rows(rows.take(i as int))[k],
                seq![],
            ),
        decreases n - i,
    {
        let mut row: Vec<&str> = Vec::new();
        let ghost prev = records@;
        records.set_and_swap(i, &mut row);
        let ghost kept0 = nonempty_rows(rows.take(i as int));
        let ghost before = store.log();
        proof {
            assert(rows.take(i as int + 1).drop_last() =~= rows.take(i as int));
            assert(rows.take(i as int + 1).last() == rows[i as int]);
            assert(strs(row@) == rows[i as int]);
            assert(forall|j: int| i < j < n ==> #[trigger] records@[j] == prev[j]);
        }
        if row.len() > 0 {
            let result = add_row_no_index(store, table_name, columns, row, default_column_name);
            outcomes.push(result);
            proof {
                let kept1 = nonempty_rows(rows.take(i as int + 1));
                assert(kept1 == kept0.push(rows[i as int]));
                assert(store.log().take(start as int) =~= before.take(start as int));
                assert forall|k: int| 0 <= k < kept1.len() implies is_insert(
                    #[trigger] store.log()[start + k],
                    table_name@,
                    resolved_columns(strs(columns@), longer(columns@.len(), kept1[k].len()), default_column_name@),
                    kept1[k],
                    seq![],
                ) by {
                    if k < kept0.len() {
                        assert(store.log()[start + k] == before[start + k]);
                        assert(kept1[k] == kept0[k]);
                    } else {
                        assert(store.log()[start + k] == store.log().last());
                    }
                }
                assert(write_outcomes(store.log().skip(start as int)) =~= write_outcomes(before.skip(start as int)).push(result));
            }
        } else {
            proof {
                assert(strs(row@).len() == 0);
                assert(nonempty_rows(rows.take(i as int + 1)) == kept0);
            }
        }
        i = i + 1;
    }
    assert(rows.take(n as int) =~= rows);
    let count = records_written(&outcomes);
    Ok(count)
}

/// A failed insertion adds nothing to the count of rows written, and the
/// outcomes after it count as fully as they would without it.
pub proof fn lemma_failure_counts_nothing(
    before: Seq<Result<(), rusqlite::Error>>,
    e: rusqlite::Error,
    after: Seq<Result<(), rusqlite::Error>>,
)
    ensures
        count_ok(before + seq![Err(e)] + after) == count_ok(before) + count_ok(after),
        count_ok(before + seq![Err(e)] + after) <= before.len() + after.len(),
{
    let pred = |o: Result<(), rusqlite::Error>| o is Ok;
    let one: Seq<Result<(), rusqlite::Error>> = seq![Err(e)];
    Seq::filter_distributes_over_add(before + one, after, pred);
    Seq::filter_distributes_over_add(before, one, pred);
    reveal(Seq::filter);
    assert(one.drop_last() =~= Seq::<Result<(), rusqlite::Error>>::empty());
    assert(one.drop_last().filter(pred) =~= Seq::<Result<(), rusqlite::Error>>::empty());
    assert(!pred(one.last()));
    assert(one.filter(pred) =~= Seq::<Result<(), rusqlite::Error>>::empty());
    before.lemma_filter_len(pred);
    after.lemma_filter_len(pred);
}

} // verus!
