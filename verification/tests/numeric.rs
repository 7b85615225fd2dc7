//! Exact decimals.

use std::sync::Arc;

use datafusion::arrow::array::{
    Array, ArrayRef, Decimal128Array, DictionaryArray, Int32Array, Int64Array, LargeStringArray,
    ListArray, StringArray, StringViewArray, StructArray, TimestampNanosecondArray,
    TimestampSecondArray,
};
use datafusion::arrow::datatypes::{DataType, Field, Int32Type, TimeUnit};
use fedqrs::expr::KeyArray;
use fedqrs::numeric::{
    column_scale, decimal_column, decimal_type, max_fractional_digits, normalize_numeric,
    numeric_columns, NumericError,
};

fn values(list: &[Option<&str>]) -> Vec<Option<String>> {
    list.iter().map(|v| v.map(|t| t.to_string())).collect()
}

#[test]
fn numeric_columns_are_found_by_type() {
    let types = values(&[Some("int4"), Some("numeric"), None, Some("decimal"), Some("Numeric")]);
    assert_eq!(numeric_columns(&types), vec![1, 3]);
    assert!(numeric_columns(&values(&[None, Some("text")])).is_empty());
}

#[test]
fn the_widest_fraction_counts() {
    assert_eq!(max_fractional_digits(&values(&[])), 0);
    assert_eq!(max_fractional_digits(&values(&[Some("12"), None, Some("-3")])), 0);
    assert_eq!(max_fractional_digits(&values(&[Some("1.5"), Some("2.125"), Some("7.")])), 3);
    let wide = format!("0.{}", "1".repeat(60));
    assert_eq!(max_fractional_digits(&values(&[Some(wide.as_str())])), 37);
    // only the first point counts, and bytes are counted
    assert_eq!(max_fractional_digits(&values(&[Some("1.2.3")])), 3);
    assert_eq!(max_fractional_digits(&values(&[Some("1.é")])), 2);
}

#[test]
fn a_column_has_one_scale_over_all_batches() {
    let batches = vec![
        values(&[Some("1.5")]),
        values(&[Some("1.2345"), None]),
        values(&[Some("9.99")]),
    ];
    assert_eq!(column_scale(&batches), 4);
    assert_eq!(column_scale(&vec![]), 0);
}

fn texts(list: &[Option<&str>]) -> KeyArray {
    KeyArray { array: Arc::new(StringArray::from(list.to_vec())) }
}

fn integers(list: &[i64]) -> KeyArray {
    KeyArray { array: Arc::new(Int64Array::from(list.to_vec())) }
}

/// An array of a type that has no text.
fn pair() -> KeyArray {
    let field = Arc::new(Field::new("a", DataType::Int64, false));
    let values: ArrayRef = Arc::new(Int64Array::from(vec![1]));
    KeyArray { array: Arc::new(StructArray::from(vec![(field, values)])) }
}

fn decimals(array: &KeyArray) -> Vec<Option<i128>> {
    array.array.as_any().downcast_ref::<Decimal128Array>().unwrap().iter().collect()
}

#[test]
fn numeric_columns_get_decimal_types() {
    assert_eq!(decimal_type(4), DataType::Decimal128(38, 4));
    let batches =
        vec![texts(&[Some("1.5"), None, Some("-2.125")]), texts(&[]), texts(&[Some("7")])];
    let (scale, out) = decimal_column(&batches).unwrap();
    assert_eq!(scale, 3);
    assert_eq!(out.len(), 3);
    for array in &out {
        assert_eq!(array.array.data_type(), &DataType::Decimal128(38, 3));
    }
    assert_eq!(decimals(&out[0]), vec![Some(1500), None, Some(-2125)]);
    assert!(decimals(&out[1]).is_empty());
    assert_eq!(decimals(&out[2]), vec![Some(7000)]);
}

#[test]
fn decimals_go_by_way_of_text() {
    let (scale, out) = decimal_column(&vec![integers(&[12, -3])]).unwrap();
    assert_eq!(scale, 0);
    assert_eq!(decimals(&out[0]), vec![Some(12), Some(-3)]);
    let (scale, out) = decimal_column(&vec![]).unwrap();
    assert_eq!(scale, 0);
    assert!(out.is_empty());
    // what is no number, or too large for one, is no value
    let (scale, out) =
        decimal_column(&vec![texts(&[Some("NaN"), Some(&"9".repeat(40)), Some("0.5")])]).unwrap();
    assert_eq!(scale, 1);
    assert_eq!(decimals(&out[0]), vec![None, None, Some(5)]);
}

#[test]
fn texts_of_every_kind_become_decimals() {
    let arrays: Vec<ArrayRef> = vec![
        Arc::new(StringArray::from(vec![Some("1.50"), None, Some("-2")])),
        Arc::new(LargeStringArray::from(vec![Some("1.50"), None, Some("-2")])),
        Arc::new(StringViewArray::from(vec![Some("1.50"), None, Some("-2")])),
        Arc::new(
            vec![Some("1.50"), None, Some("-2")].into_iter().collect::<DictionaryArray<Int32Type>>(),
        ),
        Arc::new(
            Decimal128Array::from(vec![Some(150), None, Some(-200)])
                .with_precision_and_scale(5, 2)
                .unwrap(),
        ),
    ];
    for array in arrays {
        let (scale, out) = decimal_column(&vec![KeyArray { array }]).unwrap();
        assert_eq!(scale, 2);
        assert_eq!(decimals(&out[0]), vec![Some(150), None, Some(-200)]);
    }
}

fn unprintable(array: ArrayRef) -> bool {
    let expected = array.data_type().clone();
    match decimal_column(&vec![KeyArray { array }]) {
        Err(NumericError::Unprintable(t)) => t == expected,
        _ => false,
    }
}

#[test]
fn types_with_unprintable_values_are_refused() {
    let ill_scaled = || {
        Decimal128Array::from(vec![12_345]).with_data_type(DataType::Decimal128(1, 3))
    };
    assert!(unprintable(Arc::new(ill_scaled())));
    let field = Arc::new(Field::new_list_field(DataType::Decimal128(1, 3), true));
    let offsets = datafusion::arrow::buffer::OffsetBuffer::from_lengths([1]);
    let nested = ListArray::new(field, offsets, Arc::new(ill_scaled()), None);
    assert!(unprintable(Arc::new(nested)));
    let keys = Int32Array::from(vec![0]);
    let packed = DictionaryArray::<Int32Type>::new(keys, Arc::new(ill_scaled()));
    assert!(unprintable(Arc::new(packed)));
    let zoned = TimestampSecondArray::from(vec![8_210_266_876_799]).with_timezone("+01:00");
    assert_eq!(
        zoned.data_type(),
        &DataType::Timestamp(TimeUnit::Second, Some("+01:00".into()))
    );
    assert!(unprintable(Arc::new(zoned)));
    // nanoseconds do not reach the ends of the calendar
    let close = TimestampNanosecondArray::from(vec![i64::MAX]).with_timezone("+01:00");
    let (scale, out) = decimal_column(&vec![KeyArray { array: Arc::new(close) }]).unwrap();
    // the fraction of the time counts, though it is no number
    assert_eq!(scale, 15);
    assert_eq!(decimals(&out[0]), vec![None]);
}

#[test]
fn columns_without_a_text_are_refused() {
    assert!(matches!(decimal_column(&vec![pair()]), Err(NumericError::Cast(_))));
    let outcome = normalize_numeric(&values(&[Some("numeric")]), vec![vec![pair()]]);
    assert!(matches!(outcome, Err(NumericError::Cast(_))));
}

#[test]
fn only_numeric_columns_are_converted() {
    let types = values(&[Some("int8"), Some("numeric"), None, Some("decimal")]);
    let columns = vec![
        vec![integers(&[1]), integers(&[2, 3])],
        vec![texts(&[Some("1.25")]), texts(&[Some("2"), None])],
        vec![pair(), pair()],
        vec![texts(&[Some("8")]), texts(&[Some("9"), Some("10")])],
    ];
    let out = normalize_numeric(&types, columns).unwrap();
    let new_types: Vec<Option<DataType>> = out.iter().map(|c| c.new_type.clone()).collect();
    assert_eq!(
        new_types,
        vec![
            None,
            Some(DataType::Decimal128(38, 2)),
            None,
            Some(DataType::Decimal128(38, 0)),
        ]
    );
    assert_eq!(out[0].batches[1].array.as_ref(), integers(&[2, 3]).array.as_ref());
    assert_eq!(decimals(&out[1].batches[0]), vec![Some(125)]);
    assert_eq!(decimals(&out[1].batches[1]), vec![Some(200), None]);
    assert_eq!(out[2].batches[0].array.as_ref(), pair().array.as_ref());
    assert_eq!(decimals(&out[3].batches[1]), vec![Some(9), Some(10)]);
    // a column without batches takes no scale
    let out = normalize_numeric(&values(&[Some("numeric")]), vec![vec![]]).unwrap();
    assert_eq!(out[0].new_type, Some(DataType::Decimal128(38, 0)));
    assert!(out[0].batches.is_empty());
}
