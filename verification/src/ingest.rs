//! Putting join keys into a temporary table at the source.

use datafusion::arrow::datatypes::DataType;
use vstd::prelude::*;
use vstd::string::*;

use crate::error::{EngineError, EngineFault};
use crate::text::{
    decimal, push_decimal, quote_ident, quoted, signed_decimal, signed_decimal_text,
};
use crate::types::DsKind;

verus! {

/// The temporary table that holds the join keys.
pub open spec fn key_table() -> Seq<char> {
    "fedq_dyn_keys"@
}

/// The name of the temporary table that holds the join keys.
pub fn dyn_keys_temp_table() -> (r: &'static str)
    ensures
        r@ == key_table(),
{
    "fedq_dyn_keys"
}

/// The DuckDB column type of an Arrow key type, where there is one.
pub open spec fn duck_type(t: DataType) -> Option<Seq<char>> {
    match t {
        DataType::Boolean => Some("BOOLEAN"@),
        DataType::Int8 => Some("TINYINT"@),
        DataType::Int16 => Some("SMALLINT"@),
        DataType::Int32 => Some("INTEGER"@),
        DataType::Int64 => Some("BIGINT"@),
        DataType::UInt8 => Some("UTINYINT"@),
        DataType::UInt16 => Some("USMALLINT"@),
        DataType::UInt32 => Some("UINTEGER"@),
        DataType::UInt64 => Some("UBIGINT"@),
        DataType::Float32 => Some("FLOAT"@),
        DataType::Float64 => Some("DOUBLE"@),
        DataType::Utf8 => Some("VARCHAR"@),
        DataType::LargeUtf8 => Some("VARCHAR"@),
        DataType::Date32 => Some("DATE"@),
        DataType::Date64 => Some("DATE"@),
        DataType::Timestamp(_, _) => Some("TIMESTAMP"@),
        DataType::Decimal128(precision, scale) => Some(
            "DECIMAL("@ + decimal(precision as nat) + ","@ + signed_decimal(scale as int) + ")"@,
        ),
        _ => None,
    }
}

/// Whether an Arrow type is made of other types.
pub open spec fn nested(t: DataType) -> bool {
    match t {
        DataType::List(_) => true,
        DataType::ListView(_) => true,
        DataType::FixedSizeList(_, _) => true,
        DataType::LargeList(_) => true,
        DataType::LargeListView(_) => true,
        DataType::Struct(_) => true,
        DataType::Union(_, _) => true,
        DataType::Dictionary(_, _) => true,
        DataType::Map(_, _) => true,
        DataType::RunEndEncoded(_, _) => true,
        _ => false,
    }
}

/// The text of an Arrow type.
pub uninterp spec fn type_printed(t: DataType) -> Seq<char>;

/// `DataType` printed. Trusted: the text is determined by the type, unless the
/// type is made of others. Nothing is claimed of such a type's text, which shows
/// the metadata of its fields in no particular order.
#[verifier::external_body]
fn type_text(t: &DataType) -> (r: String)
    ensures
        !nested(*t) ==> r@ == type_printed(*t),
{
    t.to_string()
}

/// The message for a key type that DuckDB does not take in.
pub fn no_ingest_type(named_type: &str) -> (r: String)
    ensures
        r@ == "no DuckDB ingest type for Arrow "@ + named_type@,
{
    let mut message = "no DuckDB ingest type for Arrow ".to_owned();
    message.append(named_type);
    message
}

/// The message for a key type that DuckDB does not take in, up to the text of a
/// type that is made of others.
pub open spec fn names_type(message: Seq<char>, t: DataType) -> bool {
    exists|text: Seq<char>|
        message == #[trigger] ("no DuckDB ingest type for Arrow "@ + text) && (!nested(t) ==> text
            == type_printed(t))
}

/// The DuckDB column type of an Arrow key type, or an error for a type that is
/// not taken in. The error names the type.
pub fn duck_type_name(data_type: &DataType) -> (r: Result<String, String>)
    ensures
        match r {
            Ok(name) => duck_type(*data_type) == Some(name@),
            Err(message) => duck_type(*data_type) is None && names_type(message@, *data_type),
        },
{
    match data_type {
        DataType::Boolean => Ok("BOOLEAN".to_owned()),
        DataType::Int8 => Ok("TINYINT".to_owned()),
        DataType::Int16 => Ok("SMALLINT".to_owned()),
        DataType::Int32 => Ok("INTEGER".to_owned()),
        DataType::Int64 => Ok("BIGINT".to_owned()),
        DataType::UInt8 => Ok("UTINYINT".to_owned()),
        DataType::UInt16 => Ok("USMALLINT".to_owned()),
        DataType::UInt32 => Ok("UINTEGER".to_owned()),
        DataType::UInt64 => Ok("UBIGINT".to_owned()),
        DataType::Float32 => Ok("FLOAT".to_owned()),
        DataType::Float64 => Ok("DOUBLE".to_owned()),
        DataType::Utf8 => Ok("VARCHAR".to_owned()),
        DataType::LargeUtf8 => Ok("VARCHAR".to_owned()),
        DataType::Date32 => Ok("DATE".to_owned()),
        DataType::Date64 => Ok("DATE".to_owned()),
        DataType::Timestamp(_, _) => Ok("TIMESTAMP".to_owned()),
        DataType::Decimal128(precision, scale) => {
            let mut name = "DECIMAL(".to_owned();
            push_decimal(&mut name, *precision as u64);
            name.append(",");
            name.append(signed_decimal_text(*scale).as_str());
            name.append(")");
            Ok(name)
        },
        _ => {
            let name = type_text(data_type);
            Err(no_ingest_type(name.as_str()))
        },
    }
}

/// Whether DuckDB's key table can hold a column of this type.
pub fn duck_can_ingest(key_type: &DataType) -> (r: bool)
    ensures
        r == (duck_type(*key_type) is Some),
{
    duck_type_name(key_type).is_ok()
}

/// The statement that makes a DuckDB key table.
pub open spec fn create_text(
    temp_table: Seq<char>,
    key_name: Seq<char>,
    duck_type_text: Seq<char>,
) -> Seq<char> {
    "CREATE TEMP TABLE "@ + quoted(temp_table) + " ("@ + quoted(key_name) + " "@ + duck_type_text
        + ")"@
}

/// The statement that makes a DuckDB key table with one column.
pub fn create_temp_sql(temp_table: &str, key_name: &str, key_type: &DataType) -> (r: Result<
    String,
    EngineError,
>)
    ensures
        match r {
            Ok(sql) => duck_type(*key_type) is Some && sql@ == create_text(
                temp_table@,
                key_name@,
                duck_type(*key_type)->0,
            ),
            Err(e) => duck_type(*key_type) is None && e@ is Runtime && names_type(
                e@->Runtime_0,
                *key_type,
            ),
        },
{
    match duck_type_name(key_type) {
        Ok(name) => {
            let mut sql = "CREATE TEMP TABLE ".to_owned();
            sql.append(quote_ident(temp_table).as_str());
            sql.append(" (");
            sql.append(quote_ident(key_name).as_str());
            sql.append(" ");
            sql.append(name.as_str());
            sql.append(")");
            Ok(sql)
        },
        Err(message) => Err(EngineError::Runtime(message)),
    }
}

/// The statement that drops a Postgres key table.
pub fn drop_temp_sql(temp_table: &str) -> (r: String)
    ensures
        r@ == "DROP TABLE IF EXISTS "@ + quoted(temp_table@),
{
    let mut sql = "DROP TABLE IF EXISTS ".to_owned();
    sql.append(quote_ident(temp_table).as_str());
    sql
}

/// Join keys are put into a table at Postgres and DuckDB. Parquet is read in
/// process and has no place for one.
pub fn require_key_table(kind: DsKind) -> (r: Result<(), EngineError>)
    ensures
        r is Ok <==> kind != DsKind::Parquet,
        r matches Err(e) ==> e@ == EngineFault::Runtime(
            "temp-join pushdown does not apply to in-process Parquet"@,
        ),
{
    match kind {
        DsKind::Parquet => Err(
            EngineError::Runtime(
                "temp-join pushdown does not apply to in-process Parquet".to_owned(),
            ),
        ),
        _ => Ok(()),
    }
}

/// DuckDB takes in keys of truth values, whole numbers of every width, doubles
/// and floats, texts, dates, times of every unit and zone, and decimals, and of
/// no other type.
pub proof fn ingested_types_are_fixed(t: DataType)
    ensures
        duck_type(t) is Some <==> t is Boolean || t is Int8 || t is Int16 || t is Int32 || t is Int64
            || t is UInt8 || t is UInt16 || t is UInt32 || t is UInt64 || t is Float32 || t is Float64
            || t is Utf8 || t is LargeUtf8 || t is Date32 || t is Date64 || t is Timestamp
            || t is Decimal128,
        t is Timestamp ==> duck_type(t) == Some("TIMESTAMP"@),
        t matches DataType::Decimal128(precision, scale) ==> duck_type(t) == Some(
            "DECIMAL("@ + decimal(precision as nat) + ","@ + (if scale < 0 {
                "-"@ + decimal((-scale) as nat)
            } else {
                decimal(scale as nat)
            }) + ")"@,
        ),
        t is Utf8 || t is LargeUtf8 ==> duck_type(t) == Some("VARCHAR"@),
        t is Date32 || t is Date64 ==> duck_type(t) == Some("DATE"@),
{
    reveal_strlit("-");
    assert("-"@ =~= seq!['-']);
}

/// A table of keys has the given name and one column of the given name and
/// type.
pub proof fn key_tables_have_one_column(
    temp_table: Seq<char>,
    key_name: Seq<char>,
    duck_type_text: Seq<char>,
)
    ensures
        create_text(temp_table, key_name, duck_type_text) == "CREATE TEMP TABLE "@ + (quoted(
            temp_table,
        ) + " ("@ + (quoted(key_name) + " "@ + duck_type_text) + ")"@),
        key_table() == "fedq_dyn_keys"@,
{
    assert(create_text(temp_table, key_name, duck_type_text) =~= "CREATE TEMP TABLE "@ + (quoted(
        temp_table,
    ) + " ("@ + (quoted(key_name) + " "@ + duck_type_text) + ")"@));
}

/// A refusal of a key type names the type.
pub proof fn refusals_name_the_type(message: Seq<char>, t: DataType)
    requires
        names_type(message, t),
    ensures
        message.take("no DuckDB ingest type for Arrow "@.len() as int)
            == "no DuckDB ingest type for Arrow "@,
        !nested(t) ==> message.skip("no DuckDB ingest type for Arrow "@.len() as int)
            == type_printed(t),
{
    let text = choose|text: Seq<char>|
        message == #[trigger] ("no DuckDB ingest type for Arrow "@ + text) && (!nested(t) ==> text
            == type_printed(t));
    let lead = "no DuckDB ingest type for Arrow "@;
    assert((lead + text).take(lead.len() as int) =~= lead);
    assert((lead + text).skip(lead.len() as int) =~= text);
}

} // verus!
