//! Reading one Postgres table over several connections.
//!
//! The table's pages are split into ranges, each range is one query, and the
//! results are put together in the order of the ranges.

use vstd::prelude::*;
use vstd::string::*;

use crate::error::{EngineError, EngineFault};
use crate::ir::opt_text;
use crate::partition::{ctid_ranges, page_ranges, ranges_are_contiguous};
use crate::sql::{aliased_table, table_text};
use crate::text::{decimal, push_decimal};
use crate::types::DsKind;

verus! {

/// The number of readers that share the ranges of a parallel read.
pub const PARALLEL_WORKERS: usize = 8;

/// The number of ways a table is split for a parallel read.
pub const PARALLEL_PARTITIONS: usize = 8;

/// The query of one page range.
pub open spec fn range_text(
    select_list: Seq<char>,
    table: Seq<char>,
    range: (u32, u32),
    condition: Option<Seq<char>>,
) -> Seq<char> {
    "SELECT "@ + select_list + " FROM "@ + table + " WHERE ctid >= '("@ + decimal(range.0 as nat)
        + ",0)'::tid AND ctid < '("@ + decimal(range.1 as nat) + ",0)'::tid"@ + (match condition {
        Some(c) => " AND ("@ + c + ")"@,
        None => Seq::empty(),
    })
}

/// The query of one page range.
fn range_sql(
    select_list: &str,
    table: &str,
    range: (u32, u32),
    condition: &Option<String>,
) -> (r: String)
    ensures
        r@ == range_text(select_list@, table@, range, opt_text(*condition)),
{
    let mut sql = "SELECT ".to_owned();
    sql.append(select_list);
    sql.append(" FROM ");
    sql.append(table);
    sql.append(" WHERE ctid >= '(");
    push_decimal(&mut sql, range.0 as u64);
    sql.append(",0)'::tid AND ctid < '(");
    push_decimal(&mut sql, range.1 as u64);
    sql.append(",0)'::tid");
    if let Some(c) = condition {
        sql.append(" AND (");
        sql.append(c.as_str());
        sql.append(")");
    }
    proof {
        assert(sql@ =~= range_text(select_list@, table@, range, opt_text(*condition)));
    }
    sql
}

/// A parallel read goes to Postgres only.
pub fn require_postgres(kind: DsKind) -> (r: Result<(), EngineError>)
    ensures
        r is Ok <==> kind == DsKind::Postgres,
        r matches Err(e) ==> e@ == EngineFault::Runtime("parallel fetch is Postgres-only"@),
{
    if kind == DsKind::Postgres {
        Ok(())
    } else {
        Err(EngineError::Runtime("parallel fetch is Postgres-only".to_owned()))
    }
}

/// The queries of a parallel read of `pages` pages, one for each range.
pub fn partition_queries(
    schema: &Option<String>,
    table: &str,
    alias: &Option<String>,
    select_list: &str,
    pages: u32,
    partitions: usize,
    where_clause: &Option<String>,
) -> (r: Vec<String>)
    ensures
        r@.len() == page_ranges(pages, partitions).len(),
        forall|i: int|
            0 <= i < r@.len() ==> (#[trigger] r@[i])@ == range_text(
                select_list@,
                table_text(opt_text(*schema), table@, opt_text(*alias)),
                page_ranges(pages, partitions)[i],
                opt_text(*where_clause),
            ),
{
    let source = aliased_table(schema, table, alias);
    let ranges = ctid_ranges(pages, partitions);
    let mut queries: Vec<String> = Vec::new();
    for i in 0..ranges.len()
        invariant
            source@ == table_text(opt_text(*schema), table@, opt_text(*alias)),
            queries@.len() == i,
            forall|j: int|
                0 <= j < i ==> (#[trigger] queries@[j])@ == range_text(
                    select_list@,
                    source@,
                    ranges@[j],
                    opt_text(*where_clause),
                ),
    {
        queries.push(range_sql(select_list, source.as_str(), ranges[i], where_clause));
    }
    queries
}

/// The reader that gets the query at `index`.
pub fn worker_of(index: usize, workers: usize) -> (r: usize)
    requires
        workers > 0,
    ensures
        r == index as int % workers as int,
        r < workers,
{
    index % workers
}

/// What a reader answers for one range: a schema and batches, or an error.
pub type PartResult<S, B> = Result<(S, Vec<B>), String>;

/// The batches of all parts, in order.
pub open spec fn all_batches<S, B>(parts: Seq<PartResult<S, B>>) -> Seq<B>
    decreases parts.len(),
{
    if parts.len() == 0 {
        Seq::empty()
    } else {
        all_batches(parts.drop_last()) + (match parts.last() {
            Ok((_, batches)) => batches@,
            Err(_) => Seq::empty(),
        })
    }
}

/// Whether the part at `i` is the first that failed.
pub open spec fn first_failure<S, B>(parts: Seq<PartResult<S, B>>, i: int) -> bool {
    &&& 0 <= i < parts.len()
    &&& parts[i] is Err
    &&& forall|j: int| 0 <= j < i ==> (#[trigger] parts[j]) is Ok
}

/// Put the results of the ranges together: the schema of the first, the
/// batches of all in order. The first range that failed fails the read.
pub fn concat_parts<S, B>(parts: Vec<PartResult<S, B>>) -> (r: Result<(S, Vec<B>), EngineError>)
    ensures
        match r {
            Ok((schema, batches)) => {
                &&& forall|i: int| 0 <= i < parts@.len() ==> (#[trigger] parts@[i]) is Ok
                &&& parts@.len() > 0
                &&& schema == (parts@[0]->Ok_0).0
                &&& batches@ == all_batches(parts@)
            },
            Err(e) => {
                ||| parts@.len() == 0 && e@ == EngineFault::Runtime(
                    "parallel fetch produced no partitions"@,
                )
                ||| exists|i: int|
                    #[trigger] first_failure(parts@, i) && e@ == EngineFault::Runtime(
                        (parts@[i]->Err_0)@,
                    )
            },
        },
{
    let ghost all = parts@;
    let mut rest = parts;
    let mut schema: Option<S> = None;
    let mut batches: Vec<B> = Vec::new();
    let ghost mut n: int = 0;
    while rest.len() > 0
        invariant
            all == parts@,
            0 <= n <= all.len(),
            rest@ == all.skip(n),
            schema is None <==> n == 0,
            n > 0 ==> schema == Some((all[0]->Ok_0).0),
            batches@ == all_batches(all.take(n)),
            forall|i: int| 0 <= i < n ==> (#[trigger] all[i]) is Ok,
        decreases rest@.len(),
    {
        let part = rest.remove(0);
        proof {
            assert(part == all[n]);
            assert(rest@ =~= all.skip(n + 1));
            assert(all.take(n + 1).drop_last() =~= all.take(n));
        }
        match part {
            Ok((part_schema, mut part_batches)) => {
                if schema.is_none() {
                    schema = Some(part_schema);
                }
                batches.append(&mut part_batches);
            },
            Err(message) => {
                proof {
                    assert(first_failure(all, n));
                }
                return Err(EngineError::Runtime(message));
            },
        }
        proof {
            n = n + 1;
        }
    }
    proof {
        assert(all.take(n) =~= all);
    }
    match schema {
        Some(s) => Ok((s, batches)),
        None => Err(EngineError::Runtime("parallel fetch produced no partitions".to_owned())),
    }
}

/// A parallel read always has at least one query to run.
pub proof fn parallel_read_has_a_query(pages: u32, partitions: usize)
    ensures
        page_ranges(pages, partitions).len() > 0,
{
    ranges_are_contiguous(pages, partitions);
}

/// The readers take turns: any `workers` queries in a row go to different
/// readers.
pub proof fn readers_take_turns(first: int, i: int, j: int, workers: int)
    requires
        0 < workers,
        0 <= first,
        first <= i < j < first + workers,
    ensures
        i % workers != j % workers,
{
    vstd::arithmetic::div_mod::lemma_fundamental_div_mod(i, workers);
    vstd::arithmetic::div_mod::lemma_fundamental_div_mod(j, workers);
    if i % workers == j % workers {
        let a = i / workers;
        let b = j / workers;
        assert(j - i == workers * (b - a)) by (nonlinear_arith)
            requires
                i == workers * a + i % workers,
                j == workers * b + j % workers,
                i % workers == j % workers,
        ;
        assert(b - a > 0) by (nonlinear_arith)
            requires
                j - i == workers * (b - a),
                j > i,
                workers > 0,
        ;
        assert(workers * (b - a) >= workers) by (nonlinear_arith)
            requires
                b - a > 0,
                workers > 0,
        ;
    }
}

// What a parallel read keeps.

/// The query of a page range reads the columns from the table, from the range's
/// first page on and before its end; a condition stands behind that, in
/// brackets, and changes nothing else.
pub proof fn range_queries_read_their_pages(
    select_list: Seq<char>,
    table: Seq<char>,
    lo: u32,
    hi: u32,
    condition: Seq<char>,
)
    ensures
        range_text(select_list, table, (lo, hi), None) == "SELECT "@ + select_list + " FROM "@ + (
        table + " WHERE ctid >= '("@ + decimal(lo as nat)) + (",0)'::tid AND ctid < '("@ + decimal(
            hi as nat,
        ) + ",0)'::tid"@),
        range_text(select_list, table, (lo, hi), Some(condition)) == range_text(
            select_list,
            table,
            (lo, hi),
            None,
        ) + " AND ("@ + condition + ")"@,
{
    assert(range_text(select_list, table, (lo, hi), None) =~= "SELECT "@ + select_list + " FROM "@
        + (table + " WHERE ctid >= '("@ + decimal(lo as nat)) + (",0)'::tid AND ctid < '("@
        + decimal(hi as nat) + ",0)'::tid"@));
    assert(range_text(select_list, table, (lo, hi), Some(condition)) =~= range_text(
        select_list,
        table,
        (lo, hi),
        None,
    ) + " AND ("@ + condition + ")"@);
}

/// The batches of two lists of parts, one after the other, are those of the
/// first and behind them those of the second; one part has its own.
pub proof fn batches_stand_in_order<S, B>(
    first: Seq<PartResult<S, B>>,
    second: Seq<PartResult<S, B>>,
    schema: S,
    batches: Vec<B>,
)
    ensures
        all_batches(first + second) == all_batches(first) + all_batches(second),
        all_batches(seq![Ok::<(S, Vec<B>), String>((schema, batches))]) == batches@,
    decreases second.len(),
{
    let one = seq![Ok::<(S, Vec<B>), String>((schema, batches))];
    assert(one.drop_last() =~= Seq::<PartResult<S, B>>::empty());
    assert(all_batches(one.drop_last()) =~= Seq::<B>::empty());
    assert(all_batches(one) =~= batches@);
    if second.len() == 0 {
        assert(first + second =~= first);
        assert(all_batches(first + second) =~= all_batches(first) + all_batches(second));
    } else {
        batches_stand_in_order(first, second.drop_last(), schema, batches);
        assert((first + second).drop_last() =~= first + second.drop_last());
        assert((first + second).last() == second.last());
        assert(all_batches(first + second) =~= all_batches(first) + all_batches(second));
    }
}

/// The first part that failed is the only first one: it failed, and all before
/// it did not.
pub proof fn one_failure_is_the_first<S, B>(parts: Seq<PartResult<S, B>>, i: int, j: int)
    requires
        first_failure(parts, i),
    ensures
        0 <= i < parts.len() && parts[i] is Err,
        0 <= j < i ==> parts[j] is Ok,
        first_failure(parts, j) ==> i == j,
{
    if first_failure(parts, j) && i != j {
        assert(parts[i] is Err && parts[j] is Err);
    }
}

} // verus!
