//! The mapping between the column types of an engine and those of the
//! protocol, and the writing of an engine's columns as rows.

use vstd::prelude::*;
use vstd::string::StringExecFns;
use vstd::utf8::encode_utf8;
use crate::protocol::backend::{ErrorResponse, FieldDescription, Severity, SqlState};
use crate::protocol::types::{DataTypeOid, FormatCode};
use crate::protocol_ext::{
    columns_bytes, int2_value, int4_value, int8_value, value_fits, ColumnValue, DataRowBatch,
};
use crate::text::{decimal_string, signed_decimal_chars};

verus! {

/// The type of a column of an engine, as far as rows can carry it.
#[derive(Debug, Clone, Copy, PartialEq, Eq, Structural)]
pub enum ColumnType {
    Int16,
    Int32,
    Int64,
    Float32,
    Float64,
    Utf8,
    /// Any type that rows cannot carry.
    Unsupported,
}

impl ColumnType {
    /// The protocol type that carries the values of the column, if any does.
    pub open spec fn data_type(self) -> Option<DataTypeOid> {
        match self {
            ColumnType::Int16 => Some(DataTypeOid::Int2),
            ColumnType::Int32 => Some(DataTypeOid::Int4),
            ColumnType::Int64 => Some(DataTypeOid::Int8),
            ColumnType::Float32 => Some(DataTypeOid::Float4),
            ColumnType::Float64 => Some(DataTypeOid::Float8),
            ColumnType::Utf8 => Some(DataTypeOid::Text),
            ColumnType::Unsupported => None,
        }
    }

    /// The column type whose values the protocol type carries, if any.
    pub open spec fn of_data_type(data_type: DataTypeOid) -> Option<ColumnType> {
        match data_type {
            DataTypeOid::Int2 => Some(ColumnType::Int16),
            DataTypeOid::Int4 => Some(ColumnType::Int32),
            DataTypeOid::Int8 => Some(ColumnType::Int64),
            DataTypeOid::Float4 => Some(ColumnType::Float32),
            DataTypeOid::Float8 => Some(ColumnType::Float64),
            DataTypeOid::Text => Some(ColumnType::Utf8),
            _ => None,
        }
    }

    /// The protocol type for the column type, or none.
    pub fn to_data_type(&self) -> (data_type: Option<DataTypeOid>)
        ensures
            data_type == self.data_type(),
    {
        match self {
            ColumnType::Int16 => Some(DataTypeOid::Int2),
            ColumnType::Int32 => Some(DataTypeOid::Int4),
            ColumnType::Int64 => Some(DataTypeOid::Int8),
            ColumnType::Float32 => Some(DataTypeOid::Float4),
            ColumnType::Float64 => Some(DataTypeOid::Float8),
            ColumnType::Utf8 => Some(DataTypeOid::Text),
            ColumnType::Unsupported => None,
        }
    }

    /// The column type for the protocol type, or none.
    pub fn from_data_type(data_type: DataTypeOid) -> (column_type: Option<ColumnType>)
        ensures
            column_type == ColumnType::of_data_type(data_type),
    {
        match data_type {
            DataTypeOid::Int2 => Some(ColumnType::Int16),
            DataTypeOid::Int4 => Some(ColumnType::Int32),
            DataTypeOid::Int8 => Some(ColumnType::Int64),
            DataTypeOid::Float4 => Some(ColumnType::Float32),
            DataTypeOid::Float8 => Some(ColumnType::Float64),
            DataTypeOid::Text => Some(ColumnType::Utf8),
            _ => None,
        }
    }
}

/// The mapping runs both ways: a column type comes back from its protocol
/// type, and a protocol type from its column type.
pub proof fn lemma_type_mapping(column_type: ColumnType, data_type: DataTypeOid)
    ensures
        column_type.data_type() matches Some(mapped) ==> ColumnType::of_data_type(mapped) == Some(
            column_type,
        ) && mapped.is_known(),
        ColumnType::of_data_type(data_type) matches Some(mapped) ==> mapped.data_type() == Some(
            data_type,
        ),
        column_type.data_type() is None <==> column_type is Unsupported,
{
}

/// The error that reports a column type that rows cannot carry.
fn unsupported_type() -> (error: ErrorResponse)
    ensures
        is_unsupported(error),
{
    ErrorResponse {
        sql_state: SqlState::feature_not_supported(),
        severity: Severity::error(),
        message: String::from_str("unsupported column type"),
    }
}

/// Whether the error reports a column type that rows cannot carry.
pub open spec fn is_unsupported(error: ErrorResponse) -> bool {
    &&& error.sql_state.0@ == "0A000"@
    &&& error.severity.0@ == "ERROR"@
    &&& error.message@ == "unsupported column type"@
}

/// The name and the type of one column of an engine's schema.
pub struct ColumnSchema {
    pub name: String,
    pub column_type: ColumnType,
}

/// Whether rows can carry every column of the schema.
pub open spec fn all_supported(schema: Seq<ColumnSchema>) -> bool {
    forall|i: int| 0 <= i < schema.len() ==> !((#[trigger] schema[i]).column_type is Unsupported)
}

/// Describes the columns of a schema for the protocol: each keeps its name
/// and gets the protocol type of its column type. A column that rows
/// cannot carry is an error.
pub fn schema_to_field_desc(schema: &Vec<ColumnSchema>) -> (described: Result<
    Vec<FieldDescription>,
    ErrorResponse,
>)
    ensures
        match described {
            Ok(fields) => {
                &&& all_supported(schema@)
                &&& fields@.len() == schema@.len()
                &&& forall|i: int|
                    0 <= i < schema@.len() ==> (#[trigger] fields@[i]).name == schema@[i].name
                        && Some(fields@[i].data_type) == schema@[i].column_type.data_type()
            },
            Err(error) => !all_supported(schema@) && is_unsupported(error),
        },
{
    let mut fields: Vec<FieldDescription> = Vec::new();
    let mut i: usize = 0;
    while i < schema.len()
        invariant
            i <= schema@.len(),
            fields@.len() == i,
            forall|k: int| 0 <= k < i ==> !((#[trigger] schema@[k]).column_type is Unsupported),
            forall|k: int|
                0 <= k < i ==> (#[trigger] fields@[k]).name == schema@[k].name && Some(
                    fields@[k].data_type,
                ) == schema@[k].column_type.data_type(),
        decreases schema@.len() - i,
    {
        match schema[i].column_type.to_data_type() {
            Some(data_type) => {
                fields.push(FieldDescription { name: schema[i].name.clone(), data_type });
            },
            None => {
                return Err(unsupported_type());
            },
        }
        i += 1;
    }
    Ok(fields)
}

/// A value that the engine has written out itself, once for each format.
pub struct EncodedValue {
    pub binary: Vec<u8>,
    pub text: String,
}

/// The values of one column of an engine's batch, in order; `None` is null.
/// Floating-point values come written out by the engine.
pub enum Column {
    Int16(Vec<Option<i16>>),
    Int32(Vec<Option<i32>>),
    Int64(Vec<Option<i64>>),
    Float32(Vec<Option<EncodedValue>>),
    Float64(Vec<Option<EncodedValue>>),
    Utf8(Vec<Option<String>>),
    /// A column of a type that rows cannot carry.
    Unsupported,
}

impl Column {
    /// The type of the column.
    pub open spec fn column_type(self) -> ColumnType {
        match self {
            Column::Int16(_) => ColumnType::Int16,
            Column::Int32(_) => ColumnType::Int32,
            Column::Int64(_) => ColumnType::Int64,
            Column::Float32(_) => ColumnType::Float32,
            Column::Float64(_) => ColumnType::Float64,
            Column::Utf8(_) => ColumnType::Utf8,
            Column::Unsupported => ColumnType::Unsupported,
        }
    }

    /// The number of values in the column.
    pub open spec fn len(self) -> nat {
        match self {
            Column::Int16(values) => values@.len(),
            Column::Int32(values) => values@.len(),
            Column::Int64(values) => values@.len(),
            Column::Float32(values) => values@.len(),
            Column::Float64(values) => values@.len(),
            Column::Utf8(values) => values@.len(),
            Column::Unsupported => 0,
        }
    }

    /// The value at `row` as it stands in a data row of the given format.
    pub open spec fn value(self, row: int, format: FormatCode) -> ColumnValue {
        match self {
            Column::Int16(values) => match values@[row] {
                Some(v) => Some(int2_value(format, v)),
                None => None,
            },
            Column::Int32(values) => match values@[row] {
                Some(v) => Some(int4_value(format, v)),
                None => None,
            },
            Column::Int64(values) => match values@[row] {
                Some(v) => Some(int8_value(format, v)),
                None => None,
            },
            Column::Float32(values) => match values@[row] {
                Some(v) => Some(encoded_value(format, v)),
                None => None,
            },
            Column::Float64(values) => match values@[row] {
                Some(v) => Some(encoded_value(format, v)),
                None => None,
            },
            Column::Utf8(values) => match values@[row] {
                Some(v) => Some(encode_utf8(v@)),
                None => None,
            },
            Column::Unsupported => None,
        }
    }

    /// The number of values in the column.
    pub fn num_values(&self) -> (count: usize)
        ensures
            count == self.len(),
    {
        match self {
            Column::Int16(values) => values.len(),
            Column::Int32(values) => values.len(),
            Column::Int64(values) => values.len(),
            Column::Float32(values) => values.len(),
            Column::Float64(values) => values.len(),
            Column::Utf8(values) => values.len(),
            Column::Unsupported => 0,
        }
    }

    /// Tells whether rows can carry the column.
    pub fn is_supported(&self) -> (supported: bool)
        ensures
            supported == !(self.column_type() is Unsupported),
    {
        match self {
            Column::Unsupported => false,
            _ => true,
        }
    }
}

/// The bytes of a value that the engine wrote out, in the given format.
pub open spec fn encoded_value(format: FormatCode, value: EncodedValue) -> Seq<u8> {
    match format {
        FormatCode::Text => encode_utf8(value.text@),
        FormatCode::Binary => value.binary@,
    }
}

/// The row made of the values that the columns hold at `row`.
pub open spec fn row_at(columns: Seq<Column>, row: int, format: FormatCode) -> Seq<ColumnValue> {
    Seq::new(columns.len(), |c: int| columns[c].value(row, format))
}

/// The rows made of the first `count` values of the columns.
pub open spec fn rows_of(columns: Seq<Column>, count: int, format: FormatCode) -> Seq<
    Seq<ColumnValue>,
> {
    Seq::new(count as nat, |r: int| row_at(columns, r, format))
}

/// Whether rows can carry every column.
pub open spec fn columns_supported(columns: Seq<Column>) -> bool {
    forall|c: int| 0 <= c < columns.len() ==> !((#[trigger] columns[c]).column_type() is Unsupported)
}

/// Whether the columns can be written into a batch of the given types and
/// format as `count` rows: there is one column for each type, each holds
/// `count` values, every value fits its type, and no row is too long for
/// its frame.
pub open spec fn columns_fit(
    columns: Seq<Column>,
    count: int,
    types: Seq<DataTypeOid>,
    format: FormatCode,
) -> bool {
    &&& columns.len() == types.len()
    &&& forall|c: int| 0 <= c < columns.len() ==> (#[trigger] columns[c]).len() == count
    &&& forall|r: int, c: int|
        0 <= r < count && 0 <= c < columns.len() ==> value_fits(
            #[trigger] columns[c].value(r, format),
            types[c],
            format,
        )
    &&& forall|r: int|
        0 <= r < count ==> columns_bytes(#[trigger] row_at(columns, r, format)).len() + 6
            <= i32::MAX
}

/// The first columns of a row take no more bytes than the whole row.
proof fn lemma_prefix_bytes(row: Seq<ColumnValue>, k: int)
    requires
        0 <= k <= row.len(),
    ensures
        columns_bytes(row.take(k)).len() <= columns_bytes(row).len(),
        k < row.len() ==> columns_bytes(row.take(k)).len() + crate::protocol_ext::column_bytes(
            row[k],
        ).len() <= columns_bytes(row).len(),
    decreases row.len() - k,
{
    if k < row.len() {
        lemma_prefix_bytes(row, k + 1);
        assert(row.take(k + 1).drop_last() =~= row.take(k));
        assert(row.take(k + 1).last() == row[k]);
    } else {
        assert(row.take(k) =~= row);
    }
}

/// Writes one value of a column as the next column of the open row.
fn write_cell(column: &Column, row: usize, batch: &mut DataRowBatch)
    requires
        old(batch).wf(),
        row < column.len(),
        !(column.column_type() is Unsupported),
        match column.value(row as int, old(batch).format()) {
            Some(bytes) => old(batch).accepts(bytes.len()),
            None => old(batch).accepts_null(),
        },
    ensures
        final(batch).wf(),
        final(batch).open_row() == old(batch).open_row().push(
            column.value(row as int, old(batch).format()),
        ),
        final(batch).rows() == old(batch).rows(),
        final(batch).types() == old(batch).types(),
        final(batch).format() == old(batch).format(),
{
    match column {
        Column::Int16(values) => match &values[row] {
            Some(v) => batch.write_int2(*v),
            None => batch.write_null(),
        },
        Column::Int32(values) => match &values[row] {
            Some(v) => batch.write_int4(*v),
            None => batch.write_null(),
        },
        Column::Int64(values) => match &values[row] {
            Some(v) => batch.write_int8(*v),
            None => batch.write_null(),
        },
        Column::Float32(values) => match &values[row] {
            Some(v) => write_encoded(v, batch),
            None => batch.write_null(),
        },
        Column::Float64(values) => match &values[row] {
            Some(v) => write_encoded(v, batch),
            None => batch.write_null(),
        },
        Column::Utf8(values) => match &values[row] {
            Some(v) => batch.write_string(v.as_str()),
            None => batch.write_null(),
        },
        Column::Unsupported => {},
    }
}

/// Writes a value that the engine wrote out, in the format of the batch.
fn write_encoded(value: &EncodedValue, batch: &mut DataRowBatch)
    requires
        old(batch).wf(),
        old(batch).accepts(encoded_value(old(batch).format(), *value).len()),
    ensures
        final(batch).wf(),
        final(batch).open_row() == old(batch).open_row().push(
            Some(encoded_value(old(batch).format(), *value)),
        ),
        final(batch).rows() == old(batch).rows(),
        final(batch).types() == old(batch).types(),
        final(batch).format() == old(batch).format(),
{
    match batch.format_code() {
        FormatCode::Text => batch.write_string(value.text.as_str()),
        FormatCode::Binary => batch.write_value(value.binary.as_slice()),
    }
}

/// Appends the values of the columns to the batch, one row for each index,
/// in order. A column that rows cannot carry is an error, and nothing is
/// written then.
pub fn record_batch_to_rows(columns: &Vec<Column>, num_rows: usize, batch: &mut DataRowBatch) -> (written:
    Result<(), ErrorResponse>)
    requires
        old(batch).wf(),
        old(batch).open_row().len() == 0,
        columns_supported(columns@) ==> columns_fit(
            columns@,
            num_rows as int,
            old(batch).types(),
            old(batch).format(),
        ),
    ensures
        final(batch).wf(),
        final(batch).types() == old(batch).types(),
        final(batch).format() == old(batch).format(),
        final(batch).open_row().len() == 0,
        match written {
            Ok(_) => columns_supported(columns@) && final(batch).rows() == old(batch).rows()
                + rows_of(columns@, num_rows as int, old(batch).format()),
            Err(error) => {
                &&& !columns_supported(columns@)
                &&& is_unsupported(error)
                &&& final(batch).rows() == old(batch).rows()
            },
        },
{
    let mut c: usize = 0;
    while c < columns.len()
        invariant
            c <= columns@.len(),
            *batch == *old(batch),
            batch.wf(),
            batch.open_row().len() == 0,
            forall|k: int| 0 <= k < c ==> !((#[trigger] columns@[k]).column_type() is Unsupported),
        decreases columns@.len() - c,
    {
        if !columns[c].is_supported() {
            return Err(unsupported_type());
        }
        c += 1;
    }
    let ghost format = batch.format();
    let ghost types = batch.types();
    let mut r: usize = 0;
    while r < num_rows
        invariant
            r <= num_rows,
            batch.wf(),
            batch.types() == types,
            batch.format() == format,
            batch.open_row().len() == 0,
            columns_supported(columns@),
            columns_fit(columns@, num_rows as int, types, format),
            batch.rows() == old(batch).rows() + rows_of(columns@, r as int, format),
        decreases num_rows - r,
    {
        let ghost row = row_at(columns@, r as int, format);
        let mut c: usize = 0;
        while c < columns.len()
            invariant
                r < num_rows,
                c <= columns@.len(),
                batch.wf(),
                batch.types() == types,
                batch.format() == format,
                columns_supported(columns@),
                columns_fit(columns@, num_rows as int, types, format),
                row == row_at(columns@, r as int, format),
                batch.open_row() == row.take(c as int),
                batch.rows() == old(batch).rows() + rows_of(columns@, r as int, format),
            decreases columns@.len() - c,
        {
            proof {
                lemma_prefix_bytes(row, c as int);
                assert(row[c as int] == columns@[c as int].value(r as int, format));
                assert(value_fits(columns@[c as int].value(r as int, format), types[c as int], format));
                assert(columns@[c as int].len() == num_rows);
            }
            write_cell(&columns[c], r, batch);
            assert(batch.open_row() =~= row.take(c + 1));
            c += 1;
        }
        assert(row.take(c as int) =~= row);
        batch.end_row();
        assert(batch.rows() =~= old(batch).rows() + rows_of(columns@, r + 1, format));
        r += 1;
    }
    Ok(())
}

impl Column {
    /// The number of bytes that the value at `row` takes in a data row of the
    /// given format; none for null.
    pub fn value_len(&self, row: usize, format: FormatCode) -> (len: Option<usize>)
        requires
            row < self.len(),
        ensures
            match self.value(row as int, format) {
                Some(bytes) => len == Some(bytes.len() as usize) && bytes.len() <= usize::MAX,
                None => len is None,
            },
    {
        match self {
            Column::Int16(values) => match &values[row] {
                Some(v) => Some(decimal_or(format, *v as i64, 2)),
                None => None,
            },
            Column::Int32(values) => match &values[row] {
                Some(v) => Some(decimal_or(format, *v as i64, 4)),
                None => None,
            },
            Column::Int64(values) => match &values[row] {
                Some(v) => Some(decimal_or(format, *v, 8)),
                None => None,
            },
            Column::Float32(values) => match &values[row] {
                Some(v) => Some(encoded_len(format, v)),
                None => None,
            },
            Column::Float64(values) => match &values[row] {
                Some(v) => Some(encoded_len(format, v)),
                None => None,
            },
            Column::Utf8(values) => match &values[row] {
                Some(v) => Some(v.as_str().as_bytes().len()),
                None => None,
            },
            Column::Unsupported => None,
        }
    }
}

/// The number of bytes of an integer in a column: those of its decimal text
/// in text format, and `width` in binary format.
fn decimal_or(format: FormatCode, v: i64, width: usize) -> (len: usize)
    ensures
        len == match format {
            FormatCode::Text => encode_utf8(signed_decimal_chars(v as int)).len(),
            FormatCode::Binary => width as nat,
        },
{
    match format {
        FormatCode::Text => decimal_string(v).as_str().as_bytes().len(),
        FormatCode::Binary => width,
    }
}

/// The number of bytes of a value that the engine wrote out.
fn encoded_len(format: FormatCode, value: &EncodedValue) -> (len: usize)
    ensures
        len == encoded_value(format, *value).len(),
{
    match format {
        FormatCode::Text => value.text.as_str().as_bytes().len(),
        FormatCode::Binary => value.binary.len(),
    }
}

/// Tells whether a value of `len` bytes, or null, fits a column of the type.
fn length_fits(
    len: Option<usize>,
    data_type: DataTypeOid,
    format: FormatCode,
    Ghost(value): Ghost<ColumnValue>,
) -> (ok: bool)
    requires
        match value {
            Some(bytes) => len == Some(bytes.len() as usize) && bytes.len() <= usize::MAX,
            None => len is None,
        },
    ensures
        ok == value_fits(value, data_type, format),
{
    match len {
        None => true,
        Some(len) => {
            if len > 2147483647 {
                return false;
            }
            let sized = match data_type {
                DataTypeOid::Text => false,
                DataTypeOid::Unknown(_) => false,
                _ => true,
            };
            match format {
                FormatCode::Text => true,
                FormatCode::Binary => {
                    if sized {
                        let declared = data_type.size_bytes();
                        assert(0 <= declared <= 8);
                        len == declared as usize
                    } else {
                        true
                    }
                },
            }
        },
    }
}

/// Whether the columns hold `count` values each, one column for each type.
pub open spec fn columns_shaped(columns: Seq<Column>, count: int, types: Seq<DataTypeOid>) -> bool {
    &&& columns.len() == types.len()
    &&& forall|c: int| 0 <= c < columns.len() ==> (#[trigger] columns[c]).len() == count
}

/// Whether the row of the values at `row` can be written: every value fits
/// its type, and the row is not too long for its frame.
pub open spec fn row_fits(
    columns: Seq<Column>,
    row: int,
    types: Seq<DataTypeOid>,
    format: FormatCode,
) -> bool {
    &&& forall|c: int|
        0 <= c < columns.len() ==> value_fits(
            #[trigger] columns[c].value(row, format),
            types[c],
            format,
        )
    &&& columns_bytes(row_at(columns, row, format)).len() + 6 <= i32::MAX
}

/// The columns fit a batch when they have its shape and each of their rows
/// fits.
pub proof fn lemma_columns_fit(
    columns: Seq<Column>,
    count: int,
    types: Seq<DataTypeOid>,
    format: FormatCode,
)
    ensures
        columns_fit(columns, count, types, format) <==> columns_shaped(columns, count, types)
            && forall|r: int| 0 <= r < count ==> #[trigger] row_fits(columns, r, types, format),
{
    if columns_fit(columns, count, types, format) {
        assert forall|r: int| 0 <= r < count implies #[trigger] row_fits(
            columns,
            r,
            types,
            format,
        ) by {
            assert(columns_bytes(row_at(columns, r, format)).len() + 6 <= i32::MAX);
        }
    }
    if columns_shaped(columns, count, types) && forall|r: int|
        0 <= r < count ==> #[trigger] row_fits(columns, r, types, format) {
        assert forall|r: int, c: int| 0 <= r < count && 0 <= c < columns.len() implies value_fits(
            #[trigger] columns[c].value(r, format),
            types[c],
            format,
        ) by {
            assert(row_fits(columns, r, types, format));
        }
        assert forall|r: int| 0 <= r < count implies columns_bytes(
            #[trigger] row_at(columns, r, format),
        ).len() + 6 <= i32::MAX by {
            assert(row_fits(columns, r, types, format));
        }
    }
}

/// The bytes of the first columns of a row, with one more column.
proof fn lemma_bytes_step(row: Seq<ColumnValue>, k: int)
    requires
        0 <= k < row.len(),
    ensures
        columns_bytes(row.take(k + 1)).len() == columns_bytes(row.take(k)).len()
            + crate::protocol_ext::column_bytes(row[k]).len(),
{
    assert(row.take(k + 1).drop_last() =~= row.take(k));
    assert(row.take(k + 1).last() == row[k]);
}

/// Tells whether the row of the values at `row` can be written.
fn check_row(columns: &Vec<Column>, row: usize, batch: &DataRowBatch) -> (ok: bool)
    requires
        batch.wf(),
        columns@.len() == batch.types().len(),
        forall|c: int| 0 <= c < columns@.len() ==> row < (#[trigger] columns@[c]).len(),
    ensures
        ok == row_fits(columns@, row as int, batch.types(), batch.format()),
{
    let format = batch.format_code();
    let ghost types = batch.types();
    let ghost values = row_at(columns@, row as int, format);
    let mut size: u64 = 0;
    let mut c: usize = 0;
    while c < columns.len()
        invariant
            c <= columns@.len(),
            batch.wf(),
            types == batch.types(),
            format == batch.format(),
            columns@.len() == types.len(),
            values == row_at(columns@, row as int, format),
            forall|k: int| 0 <= k < columns@.len() ==> row < (#[trigger] columns@[k]).len(),
            forall|k: int|
                0 <= k < c ==> value_fits(
                    #[trigger] columns@[k].value(row as int, format),
                    types[k],
                    format,
                ),
            size == columns_bytes(values.take(c as int)).len(),
            size + 6 <= i32::MAX,
        decreases columns@.len() - c,
    {
        let len = columns[c].value_len(row, format);
        let ghost value = columns@[c as int].value(row as int, format);
        assert(values[c as int] == value);
        let fits = length_fits(len, batch.type_at(c), format, Ghost(value));
        if !fits {
            return false;
        }
        let taken: u64 = match len {
            Some(len) => 4 + len as u64,
            None => 4,
        };
        proof {
            lemma_bytes_step(values, c as int);
            assert(crate::protocol_ext::column_bytes(value).len() == taken);
        }
        if size + taken > 2147483641 {
            proof {
                lemma_prefix_bytes(values, c as int + 1);
            }
            return false;
        }
        size = size + taken;
        c += 1;
    }
    assert(values.take(c as int) =~= values);
    true
}

/// Tells whether the columns can be written into the batch as `num_rows`
/// rows.
pub fn columns_fit_batch(columns: &Vec<Column>, num_rows: usize, batch: &DataRowBatch) -> (ok: bool)
    requires
        batch.wf(),
    ensures
        ok == columns_fit(columns@, num_rows as int, batch.types(), batch.format()),
{
    proof {
        lemma_columns_fit(columns@, num_rows as int, batch.types(), batch.format());
    }
    if columns.len() != batch.num_cols() {
        return false;
    }
    let mut c: usize = 0;
    while c < columns.len()
        invariant
            c <= columns@.len(),
            forall|k: int| 0 <= k < c ==> (#[trigger] columns@[k]).len() == num_rows,
        decreases columns@.len() - c,
    {
        if columns[c].num_values() != num_rows {
            return false;
        }
        c += 1;
    }
    let mut r: usize = 0;
    while r < num_rows
        invariant
            r <= num_rows,
            batch.wf(),
            columns_shaped(columns@, num_rows as int, batch.types()),
            forall|k: int|
                0 <= k < r ==> #[trigger] row_fits(columns@, k, batch.types(), batch.format()),
        decreases num_rows - r,
    {
        if !check_row(columns, r, batch) {
            return false;
        }
        r += 1;
    }
    true
}

/// Appends the values of the columns to the batch as rows, where a row can
/// be begun and the columns fit the batch; else says so with `None` and
/// writes nothing.
pub fn try_record_batch_to_rows(columns: &Vec<Column>, num_rows: usize, batch: &mut DataRowBatch) -> (written:
    Option<Result<(), ErrorResponse>>)
    requires
        old(batch).wf(),
    ensures
        final(batch).wf(),
        final(batch).types() == old(batch).types(),
        final(batch).format() == old(batch).format(),
        written is None <==> old(batch).open_row().len() != 0 || (columns_supported(columns@)
            && !columns_fit(
            columns@,
            num_rows as int,
            old(batch).types(),
            old(batch).format(),
        )),
        match written {
            None => final(batch).rows() == old(batch).rows() && final(batch).open_row() == old(
                batch,
            ).open_row(),
            Some(Ok(_)) => columns_supported(columns@) && final(batch).rows() == old(batch).rows()
                + rows_of(columns@, num_rows as int, old(batch).format()),
            Some(Err(error)) => {
                &&& !columns_supported(columns@)
                &&& is_unsupported(error)
                &&& final(batch).rows() == old(batch).rows()
            },
        },
{
    if batch.num_written() != 0 {
        return None;
    }
    let mut c: usize = 0;
    while c < columns.len()
        invariant
            c <= columns@.len(),
            *batch == *old(batch),
            batch.wf(),
            batch.open_row().len() == 0,
            forall|k: int| 0 <= k < c ==> !((#[trigger] columns@[k]).column_type() is Unsupported),
        decreases columns@.len() - c,
    {
        if !columns[c].is_supported() {
            return Some(Err(unsupported_type()));
        }
        c += 1;
    }
    if !columns_fit_batch(columns, num_rows, batch) {
        return None;
    }
    Some(record_batch_to_rows(columns, num_rows, batch))
}

} // verus!
