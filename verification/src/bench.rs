//! What the benchmarks compute: batch slices, key samples, column kinds and
//! queries.

use datafusion::arrow::datatypes::DataType;
use vstd::prelude::*;
use vstd::string::*;

use crate::expr::{naming, naming_text};
use crate::ir::opt_text;
use crate::text::{decimal, push_decimal, same, texts};

verus! {

// Rows and slices.

/// The sum of row counts.
pub open spec fn sum_of(counts: Seq<usize>) -> int
    decreases counts.len(),
{
    if counts.len() == 0 {
        0
    } else {
        sum_of(counts.drop_last()) + counts.last()
    }
}

/// Leading counts sum up to no more than all of them.
proof fn lemma_sum_prefix(counts: Seq<usize>, n: int)
    requires
        0 <= n <= counts.len(),
    ensures
        0 <= sum_of(counts.take(n)) <= sum_of(counts),
    decreases counts.len() - n,
{
    if n < counts.len() {
        lemma_sum_prefix(counts, n + 1);
        assert(counts.take(n + 1).drop_last() =~= counts.take(n));
        lemma_sum_not_negative(counts.take(n));
    } else {
        assert(counts.take(n) =~= counts);
        lemma_sum_not_negative(counts);
    }
}

/// A sum of counts is not negative.
proof fn lemma_sum_not_negative(counts: Seq<usize>)
    ensures
        0 <= sum_of(counts),
    decreases counts.len(),
{
    if counts.len() > 0 {
        lemma_sum_not_negative(counts.drop_last());
    }
}

/// The number of rows in batches of the given sizes, `None` when there are more
/// than can be counted.
pub fn count_rows(counts: &Vec<usize>) -> (r: Option<usize>)
    ensures
        match r {
            Some(n) => n == sum_of(counts@),
            None => sum_of(counts@) > usize::MAX,
        },
{
    let mut total: usize = 0;
    for i in 0..counts.len()
        invariant
            total == sum_of(counts@.take(i as int)),
    {
        proof {
            lemma_sum_prefix(counts@, i + 1);
            assert(counts@.take(i + 1).drop_last() =~= counts@.take(i as int));
        }
        match total.checked_add(counts[i]) {
            Some(sum) => {
                total = sum;
            },
            None => return None,
        }
    }
    proof {
        assert(counts@.take(counts@.len() as int) =~= counts@);
    }
    Some(total)
}

/// The most rows that a batch handed to DuckDB's `arrow` table function may
/// have: the size of a DuckDB vector.
pub const VEC: usize = 2048;

/// Slices of at most `limit` rows, each an offset and a length, from `offset` on.
pub open spec fn sliced(offset: int, rows: int, limit: int) -> Seq<(int, int)>
    decreases rows - offset,
{
    if offset >= rows || limit <= 0 {
        Seq::empty()
    } else {
        let len = if rows - offset < limit {
            rows - offset
        } else {
            limit
        };
        seq![(offset, len)] + sliced(offset + len, rows, limit)
    }
}

/// Slices as mathematical numbers.
pub open spec fn as_ints(slices: Seq<(usize, usize)>) -> Seq<(int, int)> {
    slices.map_values(|s: (usize, usize)| (s.0 as int, s.1 as int))
}

/// Slice a batch of `rows` rows into pieces of at most `limit` rows.
pub fn slice_to_vec(rows: usize, limit: usize) -> (r: Vec<(usize, usize)>)
    requires
        limit > 0,
    ensures
        as_ints(r@) == sliced(0, rows as int, limit as int),
{
    let mut out: Vec<(usize, usize)> = Vec::new();
    let mut offset: usize = 0;
    proof {
        assert(as_ints(out@) + sliced(0, rows as int, limit as int) =~= sliced(
            0,
            rows as int,
            limit as int,
        ));
    }
    while offset < rows
        invariant
            limit > 0,
            offset <= rows,
            as_ints(out@) + sliced(offset as int, rows as int, limit as int) == sliced(
                0,
                rows as int,
                limit as int,
            ),
        decreases rows - offset,
    {
        let left: usize = rows - offset;
        let len: usize = if left < limit {
            left
        } else {
            limit
        };
        let ghost before = as_ints(out@);
        let ghost rest = sliced(offset + len, rows as int, limit as int);
        out.push((offset, len));
        proof {
            assert(as_ints(out@) =~= before.push((offset as int, len as int)));
            assert(as_ints(out@) + rest =~= before + (seq![(offset as int, len as int)] + rest));
        }
        offset = offset + len;
    }
    proof {
        assert(as_ints(out@) + sliced(offset as int, rows as int, limit as int) =~= as_ints(out@));
    }
    out
}

/// The slices of a batch follow each other without a gap from `offset` to the
/// last row, and none is empty or longer than the limit.
pub proof fn slices_cover_the_batch(offset: int, rows: int, limit: int)
    requires
        0 < limit,
        offset <= rows,
    ensures
        ({
            let slices = sliced(offset, rows, limit);
            &&& slices.len() == 0 <==> offset == rows
            &&& slices.len() > 0 ==> slices[0].0 == offset && slices.last().0 + slices.last().1
                == rows
            &&& forall|i: int| 0 <= i < slices.len() ==> 0 < (#[trigger] slices[i]).1 <= limit
            &&& forall|i: int, j: int|
                0 <= i < slices.len() && j == i + 1 && j < slices.len() ==> (#[trigger] slices[i]).0
                    + slices[i].1 == (#[trigger] slices[j]).0
        }),
    decreases rows - offset,
{
    if offset < rows {
        let len = if rows - offset < limit {
            rows - offset
        } else {
            limit
        };
        slices_cover_the_batch(offset + len, rows, limit);
        let rest = sliced(offset + len, rows, limit);
        let slices = sliced(offset, rows, limit);
        assert(slices == seq![(offset, len)] + rest);
        assert forall|i: int| 0 <= i < slices.len() implies 0 < (#[trigger] slices[i]).1 <= limit by {
            if i > 0 {
                assert(slices[i] == rest[i - 1]);
            }
        }
        assert forall|i: int, j: int|
            0 <= i < slices.len() && j == i + 1 && j < slices.len() implies (#[trigger] slices[i]).0
            + slices[i].1 == (#[trigger] slices[j]).0 by {
            assert(slices[j] == rest[i]);
            if i > 0 {
                assert(slices[i] == rest[i - 1]);
            }
        }
        if rest.len() > 0 {
            assert(slices.last() == rest.last());
        }
    }
}

// Keys.

/// The first values of a key column, at most `limit` of them.
pub fn first_keys(values: &Vec<String>, limit: usize) -> (r: Vec<String>)
    ensures
        texts(r@) == texts(values@).take(
            if values@.len() < limit {
                values@.len() as int
            } else {
                limit as int
            },
        ),
{
    let count: usize = if values.len() < limit {
        values.len()
    } else {
        limit
    };
    let mut out: Vec<String> = Vec::new();
    for i in 0..count
        invariant
            count <= values@.len(),
            out@.len() == i,
            forall|j: int| 0 <= j < i ==> (#[trigger] out@[j])@ == values@[j]@,
    {
        out.push(values[i].clone());
    }
    proof {
        assert(texts(out@) =~= texts(values@).take(count as int));
    }
    out
}

/// The bytes of the UUID that a text writes, `None` for a text that writes none.
pub uninterp spec fn uuid_of(text: Seq<char>) -> Option<Seq<u8>>;

/// `Uuid::parse_str`, as the sixteen bytes of the UUID. Trusted: the outcome is
/// determined by the text.
#[verifier::external_body]
fn uuid_bytes(text: &str) -> (r: Option<Vec<u8>>)
    ensures
        r matches Some(bytes) ==> uuid_of(text@) == Some(bytes@) && bytes@.len() == 16,
        r is None ==> uuid_of(text@) is None,
{
    uuid::Uuid::parse_str(text).ok().map(|id| id.as_bytes().to_vec())
}

/// The UUIDs of texts as bytes, or the place of the first text that is none.
pub fn to_binary(values: &Vec<String>) -> (r: Result<Vec<Vec<u8>>, usize>)
    ensures
        match r {
            Ok(rows) => rows@.len() == values@.len() && forall|i: int|
                0 <= i < rows@.len() ==> uuid_of(values@[i]@) == Some((#[trigger] rows@[i])@)
                    && rows@[i]@.len() == 16,
            Err(place) => place < values@.len() && uuid_of(values@[place as int]@) is None
                && forall|i: int| 0 <= i < place ==> uuid_of((#[trigger] values@[i])@) is Some,
        },
{
    let mut rows: Vec<Vec<u8>> = Vec::new();
    for i in 0..values.len()
        invariant
            rows@.len() == i,
            forall|j: int|
                0 <= j < i ==> uuid_of(values@[j]@) == Some((#[trigger] rows@[j])@)
                    && rows@[j]@.len() == 16,
            forall|j: int| 0 <= j < i ==> uuid_of((#[trigger] values@[j])@) is Some,
    {
        match uuid_bytes(values[i].as_str()) {
            Some(bytes) => {
                rows.push(bytes);
            },
            None => return Err(i),
        }
    }
    Ok(rows)
}

// Values as text.

/// A column value that is gathered as text.
#[derive(Debug)]
pub enum Printable {
    /// The sixteen bytes of a UUID.
    Uuid(Vec<u8>),
    /// A point in time in UTC: seconds since the epoch, and nanoseconds.
    TimestampTz { seconds: i64, nanos: u32 },
    /// A wall-clock time, counted as if it were UTC.
    Timestamp { seconds: i64, nanos: u32 },
    /// A day, counted from the first day of year one.
    Date { days: i32 },
    Text(String),
}

/// The first and last second of the calendar, counted from the epoch.
pub const FIRST_SECOND: i64 = -8_334_601_228_800;

pub const LAST_SECOND: i64 = 8_210_266_876_799;

/// The first and last day of the calendar, counted from the first day of year
/// one.
pub const FIRST_DAY: i32 = -95_746_129;

pub const LAST_DAY: i32 = 95_745_399;

/// Whether a second and nanoseconds in it are a point of the calendar. A leap
/// second is counted as more than a second's nanoseconds in the last second of a
/// minute.
pub open spec fn is_instant(seconds: i64, nanos: u32) -> bool {
    FIRST_SECOND <= seconds <= LAST_SECOND && (nanos < 1_000_000_000 || (nanos < 2_000_000_000
        && seconds as int % 60 == 59))
}

/// Whether a value has a text.
pub open spec fn has_text(value: Printable) -> bool {
    match value {
        Printable::Uuid(bytes) => bytes@.len() == 16,
        Printable::TimestampTz { seconds, nanos } => is_instant(seconds, nanos),
        Printable::Timestamp { seconds, nanos } => is_instant(seconds, nanos),
        Printable::Date { days } => FIRST_DAY <= days <= LAST_DAY,
        Printable::Text(_) => true,
    }
}

/// Bytes as lower-case hexadecimal digits, two for each.
pub open spec fn hex(bytes: Seq<u8>) -> Seq<char> {
    Seq::new(
        2 * bytes.len(),
        |i: int|
            "0123456789abcdef"@[if i % 2 == 0 {
                bytes[i / 2] as int / 16
            } else {
                bytes[i / 2] as int % 16
            }],
    )
}

/// The text of the UUID with the given sixteen bytes: its digits in groups of
/// eight, four, four, four and twelve.
pub open spec fn uuid_printed(bytes: Seq<u8>) -> Seq<char> {
    hex(bytes.subrange(0, 4)) + "-"@ + hex(bytes.subrange(4, 6)) + "-"@ + hex(bytes.subrange(6, 8))
        + "-"@ + hex(bytes.subrange(8, 10)) + "-"@ + hex(bytes.subrange(10, 16))
}

/// The text of a point in time, `None` for one out of range.
pub uninterp spec fn utc_printed(seconds: i64, nanos: u32) -> Option<Seq<char>>;

/// The text of a wall-clock time, `None` for one out of range.
pub uninterp spec fn naive_printed(seconds: i64, nanos: u32) -> Option<Seq<char>>;

/// The text of a day, `None` for one out of range.
pub uninterp spec fn date_printed(days: i32) -> Option<Seq<char>>;

/// `Uuid::from_slice`, printed. Trusted: sixteen bytes are a UUID and no other
/// number of bytes is, and it prints as hyphenated lower-case hexadecimal
/// digits.
#[verifier::external_body]
fn uuid_text(bytes: &Vec<u8>) -> (r: Option<String>)
    ensures
        r is Some <==> bytes@.len() == 16,
        r matches Some(text) ==> text@ == uuid_printed(bytes@),
{
    uuid::Uuid::from_slice(bytes).ok().map(|id| id.to_string())
}

/// `DateTime::from_timestamp`, printed by `to_rfc3339`. Trusted: a point of the
/// calendar has a text and nothing else has, and the text is determined by the
/// arguments.
#[verifier::external_body]
fn utc_text(seconds: i64, nanos: u32) -> (r: Option<String>)
    ensures
        r matches Some(text) ==> utc_printed(seconds, nanos) == Some(text@),
        r is None ==> utc_printed(seconds, nanos) is None,
        r is Some <==> is_instant(seconds, nanos),
{
    chrono::DateTime::from_timestamp(seconds, nanos).map(|t| t.to_rfc3339())
}

/// `DateTime::from_timestamp`, its `naive_utc` printed. Trusted: a point of the
/// calendar has a text and nothing else has, and the text is determined by the
/// arguments.
#[verifier::external_body]
fn naive_text(seconds: i64, nanos: u32) -> (r: Option<String>)
    ensures
        r matches Some(text) ==> naive_printed(seconds, nanos) == Some(text@),
        r is None ==> naive_printed(seconds, nanos) is None,
        r is Some <==> is_instant(seconds, nanos),
{
    chrono::DateTime::from_timestamp(seconds, nanos).map(|t| t.naive_utc().to_string())
}

/// `NaiveDate::from_num_days_from_ce_opt`, printed. Trusted: a day of the
/// calendar has a text and nothing else has, and the text is determined by the
/// argument.
#[verifier::external_body]
fn date_text(days: i32) -> (r: Option<String>)
    ensures
        r matches Some(text) ==> date_printed(days) == Some(text@),
        r is None ==> date_printed(days) is None,
        r is Some <==> FIRST_DAY <= days <= LAST_DAY,
{
    chrono::NaiveDate::from_num_days_from_ce_opt(days).map(|d| d.to_string())
}

/// The text of a value, `None` for one that is no value of its kind.
pub open spec fn printed(value: Printable) -> Option<Seq<char>> {
    match value {
        Printable::Uuid(bytes) => if bytes@.len() == 16 {
            Some(uuid_printed(bytes@))
        } else {
            None
        },
        Printable::TimestampTz { seconds, nanos } => utc_printed(seconds, nanos),
        Printable::Timestamp { seconds, nanos } => naive_printed(seconds, nanos),
        Printable::Date { days } => date_printed(days),
        Printable::Text(text) => Some(text@),
    }
}

/// The text of a value.
fn print_value(value: &Printable) -> (r: Option<String>)
    ensures
        opt_text(r) == printed(*value),
        r is Some <==> has_text(*value),
{
    match value {
        Printable::Uuid(bytes) => uuid_text(bytes),
        Printable::TimestampTz { seconds, nanos } => utc_text(*seconds, *nanos),
        Printable::Timestamp { seconds, nanos } => naive_text(*seconds, *nanos),
        Printable::Date { days } => date_text(*days),
        Printable::Text(text) => Some(text.clone()),
    }
}

/// A column of values as text. A NULL stays a NULL, and so does a value that is
/// no value of its kind.
pub fn text_column(values: &Vec<Option<Printable>>) -> (r: Vec<Option<String>>)
    ensures
        r@.len() == values@.len(),
        forall|i: int|
            0 <= i < r@.len() ==> opt_text(#[trigger] r@[i]) == (match values@[i] {
                Some(value) => printed(value),
                None => None,
            }),
        forall|i: int|
            0 <= i < r@.len() ==> ((#[trigger] r@[i]) is Some <==> (values@[i] matches Some(value)
                && has_text(value))),
{
    let mut out: Vec<Option<String>> = Vec::new();
    for i in 0..values.len()
        invariant
            out@.len() == i,
            forall|j: int|
                0 <= j < i ==> opt_text(#[trigger] out@[j]) == (match values@[j] {
                    Some(value) => printed(value),
                    None => None,
                }),
            forall|j: int|
                0 <= j < i ==> ((#[trigger] out@[j]) is Some <==> (values@[j] matches Some(value)
                    && has_text(value))),
    {
        let text = match &values[i] {
            Some(value) => print_value(value),
            None => None,
        };
        out.push(text);
    }
    out
}

// Columns.

/// How the values of a Postgres column are read.
#[derive(Clone, Copy, PartialEq, Eq, Debug, Structural)]
pub enum ColumnKind {
    Int8,
    Int4,
    Int2,
    Float8,
    Float4,
    Bool,
    Uuid,
    TimestampTz,
    Timestamp,
    Date,
    Text,
}

/// How the values of a Postgres type are read, where they can be.
pub open spec fn column_kind_of(name: Seq<char>) -> Option<ColumnKind> {
    if name == "int8"@ {
        Some(ColumnKind::Int8)
    } else if name == "int4"@ {
        Some(ColumnKind::Int4)
    } else if name == "int2"@ {
        Some(ColumnKind::Int2)
    } else if name == "float8"@ {
        Some(ColumnKind::Float8)
    } else if name == "float4"@ {
        Some(ColumnKind::Float4)
    } else if name == "bool"@ {
        Some(ColumnKind::Bool)
    } else if name == "uuid"@ {
        Some(ColumnKind::Uuid)
    } else if name == "timestamptz"@ {
        Some(ColumnKind::TimestampTz)
    } else if name == "timestamp"@ {
        Some(ColumnKind::Timestamp)
    } else if name == "date"@ {
        Some(ColumnKind::Date)
    } else if name == "text"@ || name == "varchar"@ || name == "bpchar"@ || name == "name"@ {
        Some(ColumnKind::Text)
    } else {
        None
    }
}

/// How the values of a Postgres type are read, or an error that names the type.
pub fn column_kind(name: &str) -> (r: Result<ColumnKind, String>)
    ensures
        match r {
            Ok(kind) => column_kind_of(name@) == Some(kind),
            Err(message) => column_kind_of(name@) is None && message@ == naming(
                "unsupported column type "@,
                name@,
                " (cast it to text in --sql)"@,
            ),
        },
{
    if same(name, "int8") {
        Ok(ColumnKind::Int8)
    } else if same(name, "int4") {
        Ok(ColumnKind::Int4)
    } else if same(name, "int2") {
        Ok(ColumnKind::Int2)
    } else if same(name, "float8") {
        Ok(ColumnKind::Float8)
    } else if same(name, "float4") {
        Ok(ColumnKind::Float4)
    } else if same(name, "bool") {
        Ok(ColumnKind::Bool)
    } else if same(name, "uuid") {
        Ok(ColumnKind::Uuid)
    } else if same(name, "timestamptz") {
        Ok(ColumnKind::TimestampTz)
    } else if same(name, "timestamp") {
        Ok(ColumnKind::Timestamp)
    } else if same(name, "date") {
        Ok(ColumnKind::Date)
    } else if same(name, "text") || same(name, "varchar") || same(name, "bpchar") || same(
        name,
        "name",
    ) {
        Ok(ColumnKind::Text)
    } else {
        Err(naming_text("unsupported column type ", name, " (cast it to text in --sql)"))
    }
}

/// The Arrow type that a column kind is gathered into.
pub open spec fn arrow_type_of(kind: ColumnKind) -> DataType {
    match kind {
        ColumnKind::Int8 => DataType::Int64,
        ColumnKind::Int4 => DataType::Int64,
        ColumnKind::Int2 => DataType::Int64,
        ColumnKind::Float8 => DataType::Float64,
        ColumnKind::Float4 => DataType::Float64,
        ColumnKind::Bool => DataType::Boolean,
        ColumnKind::Uuid => DataType::Utf8,
        ColumnKind::TimestampTz => DataType::Utf8,
        ColumnKind::Timestamp => DataType::Utf8,
        ColumnKind::Date => DataType::Utf8,
        ColumnKind::Text => DataType::Utf8,
    }
}

/// The Arrow type that a column kind is gathered into.
pub fn arrow_type(kind: ColumnKind) -> (r: DataType)
    ensures
        r == arrow_type_of(kind),
{
    match kind {
        ColumnKind::Int8 | ColumnKind::Int4 | ColumnKind::Int2 => DataType::Int64,
        ColumnKind::Float8 | ColumnKind::Float4 => DataType::Float64,
        ColumnKind::Bool => DataType::Boolean,
        _ => DataType::Utf8,
    }
}

// Queries.

/// The join of an Arrow probe with a build table.
pub fn merge_sql(build: &str) -> (r: String)
    ensures
        r@ == "SELECT count(*) FROM arrow(?, ?) p JOIN "@ + build@ + " b ON p.id = b.id"@,
{
    let mut sql = "SELECT count(*) FROM arrow(?, ?) p JOIN ".to_owned();
    sql.append(build);
    sql.append(" b ON p.id = b.id");
    sql
}

/// The join of the experiment's tables on a key condition.
pub fn pure_join_sql(key: &str) -> (r: String)
    ensures
        r@ == "SELECT count(*) FROM t p JOIN samp b ON "@ + key@,
{
    let mut sql = "SELECT count(*) FROM t p JOIN samp b ON ".to_owned();
    sql.append(key);
    sql
}

/// The statements that make the tables of the DuckDB experiment, a line each.
pub fn setup_sql(rows: usize, build: usize) -> (r: String)
    ensures
        r@
            == "CREATE TABLE t AS SELECT gen_random_uuid() AS id, gen_random_uuid() AS tid FROM range("@
            + decimal(rows as nat) + ");\n         CREATE TABLE samp AS SELECT id FROM t LIMIT "@
            + decimal(build as nat)
            + ";\n         CREATE TABLE build_str AS SELECT CAST(id AS VARCHAR) AS id FROM samp;"@
            + "\n         CREATE TABLE build_bin AS SELECT CAST(id AS BLOB) AS id FROM samp;"@,
{
    let mut sql =
        "CREATE TABLE t AS SELECT gen_random_uuid() AS id, gen_random_uuid() AS tid FROM range(".to_owned();
    push_decimal(&mut sql, rows as u64);
    sql.append(");\n         CREATE TABLE samp AS SELECT id FROM t LIMIT ");
    push_decimal(&mut sql, build as u64);
    sql.append(";\n         CREATE TABLE build_str AS SELECT CAST(id AS VARCHAR) AS id FROM samp;");
    sql.append("\n         CREATE TABLE build_bin AS SELECT CAST(id AS BLOB) AS id FROM samp;");
    sql
}

// What counting, slicing and printing keep.

/// The rows of two lists of batches are those of both together; one batch has
/// its own.
pub proof fn rows_add_up(first: Seq<usize>, second: Seq<usize>, one: usize)
    ensures
        sum_of(first + second) == sum_of(first) + sum_of(second),
        sum_of(seq![one]) == one,
    decreases second.len(),
{
    assert(seq![one].drop_last() =~= Seq::<usize>::empty());
    assert(sum_of(seq![one].drop_last()) == 0);
    if second.len() == 0 {
        assert(first + second =~= first);
    } else {
        rows_add_up(first, second.drop_last(), one);
        assert((first + second).drop_last() =~= first + second.drop_last());
        assert((first + second).last() == second.last());
    }
}

/// All slices of a batch but the last are full.
pub proof fn slices_are_full(offset: int, rows: int, limit: int, i: int)
    requires
        0 < limit,
        0 <= i < sliced(offset, rows, limit).len() - 1,
    ensures
        sliced(offset, rows, limit)[i].1 == limit,
    decreases rows - offset,
{
    if offset < rows {
        let len = if rows - offset < limit {
            rows - offset
        } else {
            limit
        };
        let rest = sliced(offset + len, rows, limit);
        assert(sliced(offset, rows, limit) == seq![(offset, len)] + rest);
        if i > 0 {
            slices_are_full(offset + len, rows, limit, i - 1);
        }
    }
}

/// How a Postgres type of each kind is named.
pub open spec fn kind_name(kind: ColumnKind) -> Seq<char> {
    match kind {
        ColumnKind::Int8 => "int8"@,
        ColumnKind::Int4 => "int4"@,
        ColumnKind::Int2 => "int2"@,
        ColumnKind::Float8 => "float8"@,
        ColumnKind::Float4 => "float4"@,
        ColumnKind::Bool => "bool"@,
        ColumnKind::Uuid => "uuid"@,
        ColumnKind::TimestampTz => "timestamptz"@,
        ColumnKind::Timestamp => "timestamp"@,
        ColumnKind::Date => "date"@,
        ColumnKind::Text => "text"@,
    }
}

/// A column is read as what its type is named; only text goes by other names
/// too.
pub proof fn column_kinds_are_named(name: Seq<char>)
    ensures
        column_kind_of(name) matches Some(kind) ==> kind_name(kind) == name || (kind
            == ColumnKind::Text && (name == "varchar"@ || name == "bpchar"@ || name == "name"@)),
{
}

/// Whole numbers are gathered as 64-bit numbers, doubles and floats as doubles,
/// truth values as they are, and everything else as text.
pub proof fn kinds_are_gathered_by_class(kind: ColumnKind)
    ensures
        arrow_type_of(kind) is Int64 <==> kind is Int8 || kind is Int4 || kind is Int2,
        arrow_type_of(kind) is Float64 <==> kind is Float8 || kind is Float4,
        arrow_type_of(kind) is Boolean <==> kind is Bool,
        arrow_type_of(kind) is Utf8 <==> kind is Uuid || kind is TimestampTz || kind is Timestamp
            || kind is Date || kind is Text,
{
}

/// A value is printed as what it is: a text as itself, a UUID by its bytes, a
/// time in its own way of telling it, and a day as a day.
pub proof fn values_are_printed_as_their_kind(value: Printable)
    ensures
        match value {
            Printable::Text(text) => printed(value) == Some(text@),
            Printable::Uuid(bytes) => printed(value) is Some <==> bytes@.len() == 16,
            Printable::TimestampTz { seconds, nanos } => printed(value) == utc_printed(
                seconds,
                nanos,
            ),
            Printable::Timestamp { seconds, nanos } => printed(value) == naive_printed(
                seconds,
                nanos,
            ),
            Printable::Date { days } => printed(value) == date_printed(days),
        },
        value matches Printable::Uuid(bytes) ==> (printed(value) matches Some(text) ==> {
            &&& text.len() == 36
            &&& text[8] == '-' && text[13] == '-' && text[18] == '-' && text[23] == '-'
            &&& text.take(8) == hex(bytes@.take(4))
            &&& text.skip(24) == hex(bytes@.skip(10))
        }),
{
    if let Printable::Uuid(bytes) = value {
        if bytes@.len() == 16 {
            let text = uuid_printed(bytes@);
            reveal_strlit("-");
            assert(bytes@.subrange(0, 4) =~= bytes@.take(4));
            assert(bytes@.subrange(10, 16) =~= bytes@.skip(10));
            assert(text.take(8) =~= hex(bytes@.take(4)));
            assert(text.skip(24) =~= hex(bytes@.skip(10)));
        }
    }
}

/// Each byte is two digits, the higher one first, and the byte reads back.
pub proof fn hexadecimal_reads_back(bytes: Seq<u8>, i: int)
    requires
        0 <= i < bytes.len(),
    ensures
        hex(bytes).len() == 2 * bytes.len(),
        ({
            let digit_value = |c: char|
                if '0' <= c <= '9' {
                    c as int - 48
                } else {
                    c as int - 87
                };
            bytes[i] == 16 * digit_value(hex(bytes)[2 * i]) + digit_value(hex(bytes)[2 * i + 1])
        }),
{
    reveal_strlit("0123456789abcdef");
    let digits = "0123456789abcdef"@;
    assert forall|d: int| 0 <= d < 16 implies ({
        let c = #[trigger] digits[d];
        d == if '0' <= c <= '9' {
            c as int - 48
        } else {
            c as int - 87
        }
    }) by {}
    assert((2 * i) % 2 == 0 && (2 * i) / 2 == i);
    assert((2 * i + 1) % 2 == 1 && (2 * i + 1) / 2 == i);
    assert(hex(bytes)[2 * i] == digits[bytes[i] as int / 16]);
    assert(hex(bytes)[2 * i + 1] == digits[bytes[i] as int % 16]);
}

} // verus!
