//! Exact decimals from Postgres.
//!
//! `numeric` columns arrive as text. Each becomes a `Decimal128` column whose
//! scale is the widest fraction seen in any of its values, so that nothing is
//! rounded away.

use datafusion::arrow::array::AsArray;
use datafusion::arrow::datatypes::DataType;
use datafusion::arrow::error::ArrowError;
use vstd::prelude::*;
use vstd::string::*;
use vstd::utf8::encode_utf8;

use crate::expr::{array_type, cells, null_scalar, text_scalar, type_of_array, KeyArray};
use crate::ir::opt_text;
use crate::printing::{can_print, printable_type};
use crate::text::same;

verus! {

/// The precision of a decimal column: the most that `Decimal128` has.
pub const DECIMAL_PRECISION: u8 = 38;

/// The widest scale of a decimal column.
pub const MAX_SCALE: usize = 37;

/// Whether a Postgres type name is that of an exact decimal.
pub open spec fn is_numeric(named_type: Option<String>) -> bool {
    named_type matches Some(name) && (name@ == "numeric"@ || name@ == "decimal"@)
}

/// Whether a Postgres type name is that of an exact decimal.
fn names_numeric(named_type: &Option<String>) -> (r: bool)
    ensures
        r == is_numeric(*named_type),
{
    match named_type {
        Some(name) => same(name.as_str(), "numeric") || same(name.as_str(), "decimal"),
        None => false,
    }
}

/// The positions of the exact decimals among columns, given their Postgres type
/// names.
pub fn numeric_columns(type_names: &Vec<Option<String>>) -> (r: Vec<usize>)
    ensures
        forall|i: int, j: int| 0 <= i < j < r@.len() ==> r@[i] < r@[j],
        forall|i: int|
            0 <= i < r@.len() ==> (#[trigger] r@[i]) < type_names@.len() && is_numeric(
                type_names@[r@[i] as int],
            ),
        forall|c: int|
            0 <= c < type_names@.len() && is_numeric(#[trigger] type_names@[c]) ==> r@.contains(
                c as usize,
            ),
{
    let mut out: Vec<usize> = Vec::new();
    for c in 0..type_names.len()
        invariant
            forall|i: int, j: int| 0 <= i < j < out@.len() ==> out@[i] < out@[j],
            forall|i: int|
                0 <= i < out@.len() ==> (#[trigger] out@[i]) < c && is_numeric(
                    type_names@[out@[i] as int],
                ),
            forall|d: int|
                0 <= d < c && is_numeric(#[trigger] type_names@[d]) ==> out@.contains(d as usize),
    {
        if names_numeric(&type_names[c]) {
            let ghost before = out@;
            out.push(c);
            proof {
                assert(out@[before.len() as int] == c);
                assert forall|d: int|
                    0 <= d < c + 1 && is_numeric(#[trigger] type_names@[d]) implies out@.contains(
                    d as usize,
                ) by {
                    if d < c {
                        let k = choose|k: int| 0 <= k < before.len() && before[k] == d as usize;
                        assert(out@[k] == d as usize);
                    }
                }
            }
        }
    }
    out
}

/// The number of bytes behind the first point, none without a point.
pub open spec fn fraction(bytes: Seq<u8>) -> int
    decreases bytes.len(),
{
    if bytes.len() == 0 {
        0
    } else if bytes[0] == 46 {
        bytes.len() - 1
    } else {
        fraction(bytes.skip(1))
    }
}

/// The scale that a value takes: its fraction, within the widest scale. A NULL
/// takes none.
pub open spec fn scale_of(value: Option<Seq<char>>) -> int {
    match value {
        None => 0,
        Some(text) => if fraction(encode_utf8(text)) < MAX_SCALE {
            fraction(encode_utf8(text))
        } else {
            MAX_SCALE as int
        },
    }
}

/// Optional texts as characters.
pub open spec fn opt_texts(values: Seq<Option<String>>) -> Seq<Option<Seq<char>>> {
    values.map_values(|v: Option<String>| opt_text(v))
}

/// The widest scale that any of the values takes.
pub open spec fn widest(values: Seq<Option<Seq<char>>>) -> int
    decreases values.len(),
{
    if values.len() == 0 {
        0
    } else if scale_of(values.last()) > widest(values.drop_last()) {
        scale_of(values.last())
    } else {
        widest(values.drop_last())
    }
}

/// The number of bytes behind the first point of a text.
fn fraction_len(text: &str) -> (r: usize)
    ensures
        r == fraction(encode_utf8(text@)),
{
    let bytes = text.as_bytes();
    let mut i: usize = 0;
    proof {
        assert(bytes@.skip(0) =~= bytes@);
    }
    while i < bytes.len()
        invariant
            i <= bytes@.len(),
            bytes@ == encode_utf8(text@),
            fraction(bytes@.skip(i as int)) == fraction(bytes@),
        decreases bytes.len() - i,
    {
        proof {
            assert(bytes@.skip(i as int)[0] == bytes@[i as int]);
            assert(bytes@.skip(i as int).skip(1) =~= bytes@.skip(i + 1));
        }
        if bytes[i] == 46 {
            return bytes.len() - i - 1;
        }
        i = i + 1;
    }
    0
}

/// The widest number of digits behind the point among values.
pub fn max_fractional_digits(values: &Vec<Option<String>>) -> (r: i8)
    ensures
        r == widest(opt_texts(values@)),
{
    let mut most: i8 = 0;
    for i in 0..values.len()
        invariant
            0 <= most,
            most == widest(opt_texts(values@).take(i as int)),
    {
        proof {
            let texts = opt_texts(values@);
            assert(texts.take(i + 1).drop_last() == texts.take(i as int));
        }
        if let Some(text) = &values[i] {
            let len: usize = fraction_len(text.as_str());
            let scale: i8 = if len < MAX_SCALE {
                len as i8
            } else {
                MAX_SCALE as i8
            };
            if scale > most {
                most = scale;
            }
        }
    }
    proof {
        assert(opt_texts(values@).take(values@.len() as int) == opt_texts(values@));
    }
    most
}

/// The scale of a column over all its batches.
pub open spec fn column_scale_of(batches: Seq<Seq<Option<Seq<char>>>>) -> int
    decreases batches.len(),
{
    if batches.len() == 0 {
        0
    } else if widest(batches.last()) > column_scale_of(batches.drop_last()) {
        widest(batches.last())
    } else {
        column_scale_of(batches.drop_last())
    }
}

/// The texts of a column's batches as characters.
pub open spec fn batch_texts(batches: Seq<Vec<Option<String>>>) -> Seq<Seq<Option<Seq<char>>>> {
    batches.map_values(|b: Vec<Option<String>>| opt_texts(b@))
}

/// The scale of a column: the widest fraction seen in any batch.
pub fn column_scale(batches: &Vec<Vec<Option<String>>>) -> (r: i8)
    ensures
        r == column_scale_of(batch_texts(batches@)),
{
    let mut scale: i8 = 0;
    for i in 0..batches.len()
        invariant
            scale == column_scale_of(batch_texts(batches@).take(i as int)),
    {
        proof {
            let texts = batch_texts(batches@);
            assert(texts.take(i + 1).drop_last() == texts.take(i as int));
        }
        let observed: i8 = max_fractional_digits(&batches[i]);
        if observed > scale {
            scale = observed;
        }
    }
    proof {
        assert(batch_texts(batches@).take(batches@.len() as int) == batch_texts(batches@));
    }
    scale
}

/// The type of a decimal column of the given scale.
pub fn decimal_type(scale: i8) -> (r: DataType)
    ensures
        r == DataType::Decimal128(DECIMAL_PRECISION, scale),
{
    DataType::Decimal128(DECIMAL_PRECISION, scale)
}

// Columns.

/// What `arrow::compute::cast` makes of an array, `None` where it refuses.
pub uninterp spec fn cast_array(array: KeyArray, to: DataType) -> Option<KeyArray>;

/// The texts that the values of a text array hold, `None` for a NULL.
pub uninterp spec fn cell_texts(
    values: Seq<Option<datafusion::common::ScalarValue>>,
) -> Seq<Option<Seq<char>>>;

/// Whether an array of type `from` is asked to become one of type `to`: an array
/// of any printable type one of long texts, texts of either length one of short
/// texts, and short texts decimals.
pub open spec fn castable(from: DataType, to: DataType) -> bool {
    match to {
        DataType::LargeUtf8 => printable_type(from),
        DataType::Utf8 => from is Utf8 || from is LargeUtf8,
        DataType::Decimal128(precision, scale) => from is Utf8 && 0 < precision
            <= DECIMAL_PRECISION && 0 <= scale <= precision,
        _ => false,
    }
}

/// `arrow::compute::cast`. Trusted: the outcome is determined by the array and
/// the type; a result has that type and as many values as the array. A short
/// text array is not refused, and stays as it is when it is asked to become one.
/// What other values become is not stated.
#[verifier::external_body]
fn cast(array: &KeyArray, to: &DataType) -> (r: Result<KeyArray, ArrowError>)
    requires
        castable(array_type(*array), *to),
    ensures
        r matches Ok(out) ==> cast_array(*array, *to) == Some(out),
        r is Err ==> cast_array(*array, *to) is None,
        r matches Ok(out) ==> array_type(out) == *to,
        r matches Ok(out) ==> cells(out).len() == cells(*array).len(),
        array_type(*array) is Utf8 ==> r is Ok,
        array_type(*array) is Utf8 && *to is Utf8 ==> (r matches Ok(out) ==> cells(out) == cells(
            *array,
        )),
{
    datafusion::arrow::compute::cast(array.array.as_ref(), to).map(|array| KeyArray { array })
}

/// `AsArray::as_string` and `StringArray::iter`: the texts of a text array.
/// Trusted: they are determined by the array's values, one for one; the scalar
/// of a value holds its text, that of a NULL is the NULL of the text type.
#[verifier::external_body]
fn read_texts(array: &KeyArray) -> (r: Vec<Option<String>>)
    requires
        array_type(*array) is Utf8,
    ensures
        opt_texts(r@) == cell_texts(cells(*array)),
        r@.len() == cells(*array).len(),
        forall|i: int|
            0 <= i < r@.len() ==> cells(*array)[i] == Some(
                match #[trigger] r@[i] {
                    Some(text) => text_scalar(text@),
                    None => null_scalar(DataType::Utf8),
                },
            ),
{
    array.array.as_string::<i32>().iter().map(|value| value.map(|text| text.to_owned())).collect()
}

/// Why a column cannot become decimals.
#[derive(Debug)]
pub enum NumericError {
    /// Arrow refuses a cast.
    Cast(ArrowError),
    /// Arrow cannot print every value of this type.
    Unprintable(DataType),
}

/// An array as texts, `None` where it has none. A text array is taken as it is.
/// Any other goes by way of long texts, of which an array holds as many as
/// memory does; it has to fit the shorter one, which Arrow sees to.
pub open spec fn text_array(array: KeyArray) -> Option<KeyArray> {
    if array_type(array) is Utf8 {
        cast_array(array, DataType::Utf8)
    } else if printable_type(array_type(array)) {
        match cast_array(array, DataType::LargeUtf8) {
            Some(long) => cast_array(long, DataType::Utf8),
            None => None,
        }
    } else {
        None
    }
}

/// The texts of the values of an array.
pub open spec fn texts_of(array: KeyArray) -> Seq<Option<Seq<char>>> {
    cell_texts(cells(text_array(array)->0))
}

/// The scale that a column of these batches takes: the widest fraction seen in
/// the text of any of its values.
pub open spec fn decimal_scale(batches: Seq<KeyArray>) -> int {
    column_scale_of(batches.map_values(|b: KeyArray| texts_of(b)))
}

/// An array as decimals of the given scale, by way of its values as texts.
pub open spec fn decimal_of(array: KeyArray, scale: int) -> Option<KeyArray> {
    match text_array(array) {
        Some(text) => cast_array(text, DataType::Decimal128(DECIMAL_PRECISION, scale as i8)),
        None => None,
    }
}

/// The batches of a column as decimals of one scale, which every value fits;
/// `None` where one of them has no texts, or Arrow refuses a cast.
pub open spec fn decimals(batches: Seq<KeyArray>) -> Option<Seq<KeyArray>> {
    let scale = decimal_scale(batches);
    if forall|i: int| 0 <= i < batches.len() ==> decimal_of(#[trigger] batches[i], scale) is Some {
        Some(batches.map_values(|b: KeyArray| decimal_of(b, scale)->0))
    } else {
        None
    }
}

/// Whether all batches of a column are text arrays.
pub open spec fn all_text(batches: Seq<KeyArray>) -> bool {
    forall|i: int| 0 <= i < batches.len() ==> array_type(#[trigger] batches[i]) is Utf8
}

/// An array as texts.
fn as_text(array: &KeyArray) -> (r: Result<KeyArray, NumericError>)
    ensures
        match r {
            Ok(text) => {
                &&& text_array(*array) == Some(text)
                &&& array_type(text) is Utf8
                &&& cells(text).len() == cells(*array).len()
                &&& array_type(*array) is Utf8 ==> cells(text) == cells(*array)
            },
            Err(e) => {
                &&& text_array(*array) is None
                &&& array_type(*array) !is Utf8
                &&& e is Cast <==> printable_type(array_type(*array))
                &&& e matches NumericError::Unprintable(t) ==> t == array_type(*array)
            },
        },
{
    let own_type = type_of_array(array);
    if let DataType::Utf8 = own_type {
        return match cast(array, &DataType::Utf8) {
            Ok(text) => Ok(text),
            Err(e) => Err(NumericError::Cast(e)),
        };
    }
    if !can_print(&own_type) {
        return Err(NumericError::Unprintable(own_type));
    }
    match cast(array, &DataType::LargeUtf8) {
        Ok(long) => match cast(&long, &DataType::Utf8) {
            Ok(text) => Ok(text),
            Err(e) => Err(NumericError::Cast(e)),
        },
        Err(e) => Err(NumericError::Cast(e)),
    }
}

/// The batches of a column as text arrays, and the texts that these hold.
fn text_arrays(batches: &Vec<KeyArray>) -> (r: Result<
    (Vec<KeyArray>, Vec<Vec<Option<String>>>),
    NumericError,
>)
    ensures
        match r {
            Ok((arrays, texts)) => {
                &&& arrays@.len() == batches@.len()
                &&& batch_texts(texts@) == batches@.map_values(|b: KeyArray| texts_of(b))
                &&& forall|i: int|
                    0 <= i < batches@.len() ==> {
                        &&& text_array(batches@[i]) == Some(
                            #[trigger] arrays@[i],
                        )
                        &&& array_type(arrays@[i]) is Utf8
                        &&& cells(arrays@[i]).len() == cells(batches@[i]).len()
                        &&& array_type(batches@[i]) is Utf8 ==> cells(arrays@[i]) == cells(
                            batches@[i],
                        )
                    }
            },
            Err(_) => exists|i: int|
                0 <= i < batches@.len() && array_type(#[trigger] batches@[i]) !is Utf8
                    && text_array(batches@[i]) is None,
        },
{
    let mut arrays: Vec<KeyArray> = Vec::new();
    let mut texts: Vec<Vec<Option<String>>> = Vec::new();
    for i in 0..batches.len()
        invariant
            arrays@.len() == i,
            texts@.len() == i,
            forall|j: int|
                0 <= j < i ==> {
                    &&& text_array(batches@[j]) == Some(#[trigger] arrays@[j])
                    &&& array_type(arrays@[j]) is Utf8
                    &&& cells(arrays@[j]).len() == cells(batches@[j]).len()
                    &&& array_type(batches@[j]) is Utf8 ==> cells(arrays@[j]) == cells(batches@[j])
                },
            forall|j: int|
                0 <= j < i ==> opt_texts((#[trigger] texts@[j])@) == texts_of(batches@[j]),
    {
        let array = as_text(&batches[i])?;
        texts.push(read_texts(&array));
        arrays.push(array);
    }
    proof {
        assert(batch_texts(texts@) =~= batches@.map_values(|b: KeyArray| texts_of(b)));
    }
    Ok((arrays, texts))
}

/// Turn a column, one array for each batch, into decimals: the scale, which is
/// the widest fraction seen in any value of any batch, and the arrays. A text
/// column is never refused, and its scale is that of its own texts.
pub fn decimal_column(batches: &Vec<KeyArray>) -> (r: Result<(i8, Vec<KeyArray>), NumericError>)
    ensures
        match r {
            Ok((scale, out)) => {
                &&& scale == decimal_scale(batches@)
                &&& decimals(batches@) == Some(out@)
                &&& forall|i: int|
                    0 <= i < out@.len() ==> {
                        &&& array_type(#[trigger] out@[i]) == DataType::Decimal128(
                            DECIMAL_PRECISION,
                            scale,
                        )
                        &&& cells(out@[i]).len() == cells(batches@[i]).len()
                    }
            },
            Err(_) => decimals(batches@) is None,
        },
        all_text(batches@) ==> r is Ok && decimal_scale(batches@) == column_scale_of(
            batches@.map_values(|b: KeyArray| cell_texts(cells(b))),
        ),
{
    let (arrays, texts) = match text_arrays(batches) {
        Ok(read) => read,
        Err(e) => {
            proof {
                let i = choose|i: int|
                    0 <= i < batches@.len() && array_type(#[trigger] batches@[i]) !is Utf8
                        && text_array(batches@[i]) is None;
                assert(decimal_of(batches@[i], decimal_scale(batches@)) is None);
            }
            return Err(e);
        },
    };
    let scale: i8 = column_scale(&texts);
    proof {
        lemma_column_scale_bounded(batch_texts(texts@));
        if all_text(batches@) {
            assert forall|i: int| 0 <= i < batches@.len() implies texts_of(batches@[i])
                == cell_texts(cells(#[trigger] batches@[i])) by {
                assert(text_array(batches@[i]) == Some(arrays@[i]));
                assert(array_type(batches@[i]) is Utf8);
            }
            assert(batches@.map_values(|b: KeyArray| texts_of(b)) =~= batches@.map_values(
                |b: KeyArray| cell_texts(cells(b)),
            ));
        }
    }
    let to = decimal_type(scale);
    let mut out: Vec<KeyArray> = Vec::new();
    for i in 0..arrays.len()
        invariant
            arrays@.len() == batches@.len(),
            scale == decimal_scale(batches@),
            0 <= scale <= MAX_SCALE,
            to == DataType::Decimal128(DECIMAL_PRECISION, scale),
            forall|j: int|
                0 <= j < batches@.len() ==> {
                    &&& text_array(batches@[j]) == Some(#[trigger] arrays@[j])
                    &&& array_type(arrays@[j]) is Utf8
                    &&& cells(arrays@[j]).len() == cells(batches@[j]).len()
                },
            out@.len() == i,
            forall|j: int|
                0 <= j < i ==> {
                    &&& decimal_of(batches@[j], scale as int) == Some(#[trigger] out@[j])
                    &&& array_type(out@[j]) == to
                    &&& cells(out@[j]).len() == cells(batches@[j]).len()
                },
    {
        proof {
            assert(array_type(arrays@[i as int]) is Utf8);
        }
        match cast(&arrays[i], &to) {
            Ok(array) => out.push(array),
            Err(e) => return Err(NumericError::Cast(e)),
        }
    }
    proof {
        assert forall|i: int| 0 <= i < batches@.len() implies decimal_of(
            #[trigger] batches@[i],
            scale as int,
        ) is Some by {
            assert(decimal_of(batches@[i], scale as int) == Some(out@[i]));
        }
        assert(out@ =~= decimals(batches@)->0);
    }
    Ok((scale, out))
}

/// A column of a result: the type that replaces its own, where there is one,
/// and its arrays, one for each batch.
pub struct NormalColumn {
    pub new_type: Option<DataType>,
    pub batches: Vec<KeyArray>,
}

/// Whether `column` is what a column with these batches becomes: decimals, with
/// the type of these, if its Postgres type is an exact decimal, else itself.
pub open spec fn normalized(
    named_type: Option<String>,
    batches: Seq<KeyArray>,
    column: NormalColumn,
) -> bool {
    if is_numeric(named_type) {
        &&& column.new_type == Some(
            DataType::Decimal128(DECIMAL_PRECISION, decimal_scale(batches) as i8),
        )
        &&& decimals(batches) == Some(column.batches@)
    } else {
        &&& column.new_type is None
        &&& column.batches@ == batches
    }
}

/// Turn the exact decimals among the columns of a result, given their Postgres
/// type names, into decimal columns. The other columns stay as they are.
pub fn normalize_numeric(type_names: &Vec<Option<String>>, columns: Vec<Vec<KeyArray>>) -> (r: Result<
    Vec<NormalColumn>,
    NumericError,
>)
    requires
        type_names@.len() == columns@.len(),
    ensures
        match r {
            Ok(out) => {
                &&& out@.len() == columns@.len()
                &&& forall|c: int|
                    0 <= c < out@.len() ==> normalized(
                        type_names@[c],
                        columns@[c]@,
                        #[trigger] out@[c],
                    )
                &&& forall|c: int, b: int|
                    0 <= c < out@.len() && 0 <= b < columns@[c]@.len() ==> cells(
                        (#[trigger] out@[c]).batches@[b],
                    ).len() == cells(#[trigger] columns@[c]@[b]).len()
            },
            Err(_) => exists|c: int|
                0 <= c < columns@.len() && is_numeric(type_names@[c]) && !all_text(
                    #[trigger] columns@[c]@,
                ) && decimals(columns@[c]@) is None,
        },
{
    let ghost all = columns@;
    let mut rest = columns;
    let mut out: Vec<NormalColumn> = Vec::new();
    for c in 0..type_names.len()
        invariant
            all == columns@,
            type_names@.len() == all.len(),
            rest@ == all.skip(c as int),
            out@.len() == c,
            forall|d: int|
                0 <= d < c ==> normalized(type_names@[d], all[d]@, #[trigger] out@[d]),
            forall|d: int, b: int|
                0 <= d < c && 0 <= b < all[d]@.len() ==> cells(
                    (#[trigger] out@[d]).batches@[b],
                ).len() == cells(#[trigger] all[d]@[b]).len(),
    {
        let batches = rest.remove(0);
        proof {
            assert(batches == all[c as int]);
            assert(rest@ =~= all.skip(c + 1));
        }
        if names_numeric(&type_names[c]) {
            match decimal_column(&batches) {
                Ok((scale, arrays)) => out.push(
                    NormalColumn { new_type: Some(decimal_type(scale)), batches: arrays },
                ),
                Err(e) => {
                    proof {
                        assert(decimals(all[c as int]@) is None);
                    }
                    return Err(e);
                },
            }
        } else {
            out.push(NormalColumn { new_type: None, batches });
        }
    }
    Ok(out)
}

/// No value of a column is rounded: its fraction fits the column's scale,
/// unless it is wider than any scale.
pub proof fn scale_fits_every_value(batches: Seq<KeyArray>, batch: int, row: int)
    requires
        0 <= batch < batches.len(),
        0 <= row < texts_of(batches[batch]).len(),
    ensures
        scale_of(texts_of(batches[batch])[row]) <= decimal_scale(batches) <= MAX_SCALE,
{
    let texts = batches.map_values(|b: KeyArray| texts_of(b));
    lemma_column_scale_bounded(texts);
    lemma_column_scale_fits(texts, batch, row);
}

/// The scale of a column is one that some value takes, or zero: it is no wider
/// than the values ask for.
pub proof fn scale_is_that_of_a_value(batches: Seq<KeyArray>)
    requires
        decimal_scale(batches) != 0,
    ensures
        exists|batch: int, row: int|
            0 <= batch < batches.len() && 0 <= row < texts_of(batches[batch]).len() && scale_of(
                #[trigger] texts_of(batches[batch])[row],
            ) == decimal_scale(batches),
{
    let texts = batches.map_values(|b: KeyArray| texts_of(b));
    let (batch, row) = lemma_column_scale_attained(texts);
    assert(scale_of(texts_of(batches[batch])[row]) == decimal_scale(batches));
}

/// A column's scale is at least that of each value.
proof fn lemma_column_scale_fits(batches: Seq<Seq<Option<Seq<char>>>>, batch: int, row: int)
    requires
        0 <= batch < batches.len(),
        0 <= row < batches[batch].len(),
    ensures
        scale_of(batches[batch][row]) <= column_scale_of(batches),
    decreases batches.len(),
{
    if batch == batches.len() - 1 {
        lemma_widest_fits(batches[batch], row);
    } else {
        assert(batches.drop_last()[batch] == batches[batch]);
        lemma_column_scale_fits(batches.drop_last(), batch, row);
    }
}

/// A column's scale, unless zero, is that of some value.
proof fn lemma_column_scale_attained(batches: Seq<Seq<Option<Seq<char>>>>) -> (r: (int, int))
    requires
        column_scale_of(batches) != 0,
    ensures
        0 <= r.0 < batches.len(),
        0 <= r.1 < batches[r.0].len(),
        scale_of(batches[r.0][r.1]) == column_scale_of(batches),
    decreases batches.len(),
{
    if widest(batches.last()) > column_scale_of(batches.drop_last()) {
        lemma_column_scale_bounded(batches.drop_last());
        (batches.len() - 1, lemma_widest_attained(batches.last()))
    } else {
        lemma_column_scale_attained(batches.drop_last())
    }
}

/// The widest scale, unless zero, is that of some value.
proof fn lemma_widest_attained(values: Seq<Option<Seq<char>>>) -> (row: int)
    requires
        widest(values) != 0,
    ensures
        0 <= row < values.len(),
        scale_of(values[row]) == widest(values),
    decreases values.len(),
{
    if scale_of(values.last()) > widest(values.drop_last()) {
        values.len() - 1
    } else {
        lemma_widest_attained(values.drop_last())
    }
}

/// The widest scale is at least that of each value.
proof fn lemma_widest_fits(values: Seq<Option<Seq<char>>>, row: int)
    requires
        0 <= row < values.len(),
    ensures
        scale_of(values[row]) <= widest(values),
    decreases values.len(),
{
    if row < values.len() - 1 {
        assert(values.drop_last()[row] == values[row]);
        lemma_widest_fits(values.drop_last(), row);
    }
}

/// The widest scale is within bounds.
proof fn lemma_widest_bounded(values: Seq<Option<Seq<char>>>)
    ensures
        0 <= widest(values) <= MAX_SCALE,
    decreases values.len(),
{
    if values.len() > 0 {
        lemma_widest_bounded(values.drop_last());
    }
}

/// A column's scale is within bounds.
proof fn lemma_column_scale_bounded(batches: Seq<Seq<Option<Seq<char>>>>)
    ensures
        0 <= column_scale_of(batches) <= MAX_SCALE,
    decreases batches.len(),
{
    if batches.len() > 0 {
        lemma_column_scale_bounded(batches.drop_last());
        lemma_widest_bounded(batches.last());
    }
}

// What becomes of a column.

/// The fraction of a text is what stands behind its first point, counted in
/// bytes, and none where there is no point.
pub proof fn fractions_stand_behind_the_first_point(bytes: Seq<u8>, i: int)
    requires
        0 <= i <= bytes.len(),
        forall|j: int| 0 <= j < i ==> bytes[j] != 46,
        i < bytes.len() ==> bytes[i] == 46,
    ensures
        fraction(bytes) == if i < bytes.len() {
            bytes.len() - i - 1
        } else {
            0
        },
    decreases bytes.len(),
{
    if i > 0 {
        assert forall|j: int| 0 <= j < i - 1 implies bytes.skip(1)[j] != 46 by {
            assert(bytes.skip(1)[j] == bytes[j + 1]);
        }
        assert(i < bytes.len() ==> bytes.skip(1)[i - 1] == bytes[i]);
        fractions_stand_behind_the_first_point(bytes.skip(1), i - 1);
    }
}

/// Every batch of a column becomes decimals of the column's one scale, by way of
/// its own texts: no batch is dropped, doubled or taken for another. A column
/// has no decimals exactly where one of its batches has none.
pub proof fn batches_become_decimals_one_by_one(batches: Seq<KeyArray>)
    ensures
        match decimals(batches) {
            Some(out) => {
                &&& out.len() == batches.len()
                &&& forall|i: int|
                    0 <= i < batches.len() ==> text_array(#[trigger] batches[i]) is Some
                        && cast_array(
                        text_array(batches[i])->0,
                        DataType::Decimal128(38, decimal_scale(batches) as i8),
                    ) == Some(out[i])
            },
            None => exists|i: int|
                0 <= i < batches.len() && (text_array(#[trigger] batches[i]) is None || cast_array(
                    text_array(batches[i])->0,
                    DataType::Decimal128(38, decimal_scale(batches) as i8),
                ) is None),
        },
{
    let scale = decimal_scale(batches);
    match decimals(batches) {
        Some(out) => {
            assert forall|i: int| 0 <= i < batches.len() implies text_array(
                #[trigger] batches[i],
            ) is Some && cast_array(
                text_array(batches[i])->0,
                DataType::Decimal128(38, scale as i8),
            ) == Some(out[i]) by {
                assert(decimal_of(batches[i], scale) is Some);
            }
        },
        None => {
            let i = choose|i: int|
                0 <= i < batches.len() && !(decimal_of(#[trigger] batches[i], scale) is Some);
            assert(decimal_of(batches[i], scale) is None);
        },
    }
}

/// The texts of an array are its own: a text array is taken as it is, any other
/// is cast to text.
pub proof fn texts_are_those_of_the_array(array: KeyArray)
    ensures
        array_type(array) is Utf8 ==> text_array(array) == cast_array(array, DataType::Utf8),
        array_type(array) !is Utf8 ==> (text_array(array) matches Some(text) ==> exists|long: KeyArray|
            cast_array(array, DataType::LargeUtf8) == Some(long) && #[trigger] cast_array(
                long,
                DataType::Utf8,
            ) == Some(text)),
        texts_of(array) == cell_texts(cells(text_array(array)->0)),
{
    if array_type(array) !is Utf8 {
        if let Some(text) = text_array(array) {
            let long = cast_array(array, DataType::LargeUtf8)->0;
            assert(cast_array(long, DataType::Utf8) == Some(text));
        }
    }
}

/// The scale of two lists of batches together is the wider of theirs, and that
/// of one batch the widest of its values.
pub proof fn scales_widen(first: Seq<KeyArray>, second: Seq<KeyArray>, one: KeyArray)
    ensures
        decimal_scale(first + second) == if decimal_scale(first) < decimal_scale(second) {
            decimal_scale(second)
        } else {
            decimal_scale(first)
        },
        decimal_scale(seq![one]) == widest(texts_of(one)),
    decreases second.len(),
{
    let text = |b: KeyArray| texts_of(b);
    let single = seq![one].map_values(text);
    assert(single.drop_last() =~= Seq::empty());
    assert(column_scale_of(single.drop_last()) == 0);
    assert(single.last() == texts_of(one));
    lemma_widest_bounded(texts_of(one));
    lemma_column_scale_bounded(first.map_values(text));
    if second.len() == 0 {
        assert(first + second =~= first);
    } else {
        scales_widen(first, second.drop_last(), one);
        let both = (first + second).map_values(text);
        assert(both.drop_last() =~= (first + second.drop_last()).map_values(text));
        assert(both.last() == texts_of(second.last()));
        assert(second.map_values(text).drop_last() =~= second.drop_last().map_values(text));
        assert(second.map_values(text).last() == texts_of(second.last()));
    }
}

/// A column of an exact decimal type becomes decimals of the type that is
/// announced for it; any other stays as it is.
pub proof fn columns_stay_or_become_decimals(
    named_type: Option<String>,
    batches: Seq<KeyArray>,
    column: NormalColumn,
)
    requires
        normalized(named_type, batches, column),
    ensures
        ({
            let exact = named_type matches Some(name) && (name@ == "numeric"@ || name@ == "decimal"@);
            if exact {
                &&& column.new_type == Some(
                    DataType::Decimal128(38, decimal_scale(batches) as i8),
                )
                &&& decimals(batches) == Some(column.batches@)
            } else {
                &&& column.new_type is None
                &&& column.batches@ == batches
            }
        }),
{
}

/// The scale of a value is its fraction, up to the widest scale; a NULL has
/// none.
pub proof fn scales_are_fractions(value: Option<Seq<char>>)
    ensures
        value is None ==> scale_of(value) == 0,
        value matches Some(text) ==> (fraction(encode_utf8(text)) <= 37 ==> scale_of(value)
            == fraction(encode_utf8(text))),
        value matches Some(text) ==> (fraction(encode_utf8(text)) > 37 ==> scale_of(value) == 37),
        DECIMAL_PRECISION == 38,
{
}

/// The texts of values show their characters, each in its place.
pub proof fn value_texts_stand_in_order(
    values: Seq<Option<String>>,
    batches: Seq<Vec<Option<String>>>,
)
    ensures
        opt_texts(values).len() == values.len(),
        forall|i: int|
            0 <= i < values.len() ==> #[trigger] opt_texts(values)[i] == (match values[i] {
                Some(text) => Some(text@),
                None => None,
            }),
        batch_texts(batches).len() == batches.len(),
        forall|i: int|
            0 <= i < batches.len() ==> #[trigger] batch_texts(batches)[i] == opt_texts(batches[i]@),
{
}

} // verus!
