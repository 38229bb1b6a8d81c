//! The rows of a result, encoded as they are written.

use bytes::BufMut;
use bytes::BytesMut;
use vstd::prelude::*;
use vstd::utf8::encode_utf8;
use crate::buffer::{buffer_bytes, put_i16, put_i32, put_i64, put_u8};
use crate::protocol::backend::{FieldDescription, RowDescription};
use crate::protocol::codec::{frame_bytes, lemma_frame_length};
use crate::protocol::types::{DataTypeOid, FormatCode};
use crate::text::{decimal_string, signed_decimal_chars};
use crate::protocol::client::{i16_at, i32_at};
use crate::wire::{be_bytes_i16, be_bytes_i32, be_bytes_i64, lemma_i16_round_trip};

verus! {

/// The value of one column of a row: its bytes, or `None` for null.
pub type ColumnValue = Option<Seq<u8>>;

/// One column on the wire: the length of the value and its bytes, or the
/// length -1 and nothing for null.
pub open spec fn column_bytes(value: ColumnValue) -> Seq<u8> {
    match value {
        None => be_bytes_i32(-1i32),
        Some(bytes) => be_bytes_i32(bytes.len() as i32) + bytes,
    }
}

/// The given columns on the wire, one after the other.
pub open spec fn columns_bytes(columns: Seq<ColumnValue>) -> Seq<u8>
    decreases columns.len(),
{
    if columns.len() == 0 {
        Seq::<u8>::empty()
    } else {
        columns_bytes(columns.drop_last()) + column_bytes(columns.last())
    }
}

/// The frame of one data row: the tag `D`, the length, the number of
/// columns, and the columns.
pub open spec fn data_row_frame(row: Seq<ColumnValue>) -> Seq<u8> {
    frame_bytes(68, be_bytes_i16(row.len() as i16) + columns_bytes(row))
}

/// The frames of the given rows, one after the other.
pub open spec fn data_rows_bytes(rows: Seq<Seq<ColumnValue>>) -> Seq<u8>
    decreases rows.len(),
{
    if rows.len() == 0 {
        Seq::<u8>::empty()
    } else {
        data_rows_bytes(rows.drop_last()) + data_row_frame(rows.last())
    }
}

/// Whether a column type declares the size of its values: every supported
/// type but `Text` does.
pub open spec fn declares_size(data_type: DataTypeOid) -> bool {
    data_type.is_known() && !(data_type is Text)
}

/// Whether a value may stand in a column of the given type and format. A
/// value is at most `i32::MAX` bytes long. In binary format, a value of a
/// type that declares its size has that size. Null may stand anywhere.
pub open spec fn value_fits(value: ColumnValue, data_type: DataTypeOid, format: FormatCode) -> bool {
    match value {
        None => true,
        Some(bytes) => {
            &&& bytes.len() <= i32::MAX
            &&& format is Binary && declares_size(data_type) ==> bytes.len()
                == data_type.wire_size()
        },
    }
}

/// Whether the values are the first columns of a row of the given types.
pub open spec fn values_fit(
    values: Seq<ColumnValue>,
    types: Seq<DataTypeOid>,
    format: FormatCode,
) -> bool {
    &&& values.len() <= types.len()
    &&& forall|j: int| 0 <= j < values.len() ==> value_fits(#[trigger] values[j], types[j], format)
}

/// The bytes of a 16-bit integer in a column of the given format.
pub open spec fn int2_value(format: FormatCode, val: i16) -> Seq<u8> {
    match format {
        FormatCode::Text => encode_utf8(signed_decimal_chars(val as int)),
        FormatCode::Binary => be_bytes_i16(val),
    }
}

/// The bytes of a 32-bit integer in a column of the given format.
pub open spec fn int4_value(format: FormatCode, val: i32) -> Seq<u8> {
    match format {
        FormatCode::Text => encode_utf8(signed_decimal_chars(val as int)),
        FormatCode::Binary => be_bytes_i32(val),
    }
}

/// The bytes of a 64-bit integer in a column of the given format.
pub open spec fn int8_value(format: FormatCode, val: i64) -> Seq<u8> {
    match format {
        FormatCode::Text => encode_utf8(signed_decimal_chars(val as int)),
        FormatCode::Binary => be_bytes_i64(val),
    }
}

/// The encoded rows take at least seven bytes each.
proof fn lemma_data_rows_bytes_len(rows: Seq<Seq<ColumnValue>>)
    ensures
        data_rows_bytes(rows).len() >= 7 * rows.len(),
    decreases rows.len(),
{
    if rows.len() > 0 {
        lemma_data_rows_bytes_len(rows.drop_last());
    }
}

/// The rows of a result, kept as the frames that carry them, together with
/// the types and the format that every row written has to follow.
///
/// A row is written column by column, in the order of the description, and
/// closed with `end_row`.
pub struct DataRowBatch {
    format_code: FormatCode,
    types: Vec<DataTypeOid>,
    num_rows: usize,
    data: BytesMut,
    row: BytesMut,
    written: usize,
    rows: Ghost<Seq<Seq<ColumnValue>>>,
    open_row: Ghost<Seq<ColumnValue>>,
}

impl DataRowBatch {
    /// The rows written and closed so far.
    pub closed spec fn rows(&self) -> Seq<Seq<ColumnValue>> {
        self.rows@
    }

    /// The columns written so far of the row that is not closed yet.
    pub closed spec fn open_row(&self) -> Seq<ColumnValue> {
        self.open_row@
    }

    /// The types of the columns, in order.
    pub closed spec fn types(&self) -> Seq<DataTypeOid> {
        self.types@
    }

    /// The format in which values are written.
    pub closed spec fn format(&self) -> FormatCode {
        self.format_code
    }

    /// The number of bytes that the open row takes so far.
    pub open spec fn open_row_size(&self) -> nat {
        columns_bytes(self.open_row()).len()
    }

    /// What holds of every batch: there are at most 32767 columns; every
    /// closed row has one value for each column, and every value fits its
    /// column; so do the values of the open row; and no row is too long for
    /// its frame.
    pub closed spec fn wf(&self) -> bool {
        &&& self.types@.len() <= 32767
        &&& self.num_rows == self.rows@.len()
        &&& self.written == self.open_row@.len()
        &&& buffer_bytes(self.data) == data_rows_bytes(self.rows@)
        &&& buffer_bytes(self.row) == columns_bytes(self.open_row@)
        &&& values_fit(self.open_row@, self.types@, self.format_code)
        &&& columns_bytes(self.open_row@).len() + 6 <= i32::MAX
        &&& forall|i: int|
            0 <= i < self.rows@.len() ==> {
                &&& (#[trigger] self.rows@[i]).len() == self.types@.len()
                &&& values_fit(self.rows@[i], self.types@, self.format_code)
                &&& columns_bytes(self.rows@[i]).len() + 6 <= i32::MAX
            }
    }

    /// Whether a value of `len` bytes can be written next: a column is left
    /// in the open row, the row stays short enough for its frame, and the
    /// length is the one that the column's type declares, where the format
    /// is binary and the type declares one.
    pub open spec fn accepts(&self, len: nat) -> bool {
        &&& self.open_row().len() < self.types().len()
        &&& self.open_row_size() + 4 + len + 6 <= i32::MAX
        &&& self.format() is Binary && declares_size(self.types()[self.open_row().len() as int])
            ==> len == self.types()[self.open_row().len() as int].wire_size()
    }

    /// Whether null can be written next: a column is left in the open row,
    /// and the row stays short enough for its frame.
    pub open spec fn accepts_null(&self) -> bool {
        &&& self.open_row().len() < self.types().len()
        &&& self.open_row_size() + 4 + 6 <= i32::MAX
    }

    /// An empty batch for rows of the given description.
    pub fn from_row_desc(desc: &RowDescription) -> (batch: Self)
        requires
            desc.fields@.len() <= 32767,
        ensures
            batch.wf(),
            batch.rows() == Seq::<Seq<ColumnValue>>::empty(),
            batch.open_row() == Seq::<ColumnValue>::empty(),
            batch.format() == desc.format_code,
            batch.types() == desc.fields@.map_values(|field: FieldDescription| field.data_type),
    {
        let mut types: Vec<DataTypeOid> = Vec::new();
        let mut i: usize = 0;
        while i < desc.fields.len()
            invariant
                i <= desc.fields@.len(),
                types@ == desc.fields@.take(i as int).map_values(
                    |field: FieldDescription| field.data_type,
                ),
            decreases desc.fields@.len() - i,
        {
            types.push(desc.fields[i].data_type);
            assert(types@ =~= desc.fields@.take(i + 1).map_values(
                |field: FieldDescription| field.data_type,
            ));
            i += 1;
        }
        assert(desc.fields@.take(i as int) =~= desc.fields@);
        Self::new(desc.format_code, types)
    }

    /// An empty batch for rows of the given column types and format.
    pub fn new(format_code: FormatCode, types: Vec<DataTypeOid>) -> (batch: Self)
        requires
            types@.len() <= 32767,
        ensures
            batch.wf(),
            batch.rows() == Seq::<Seq<ColumnValue>>::empty(),
            batch.open_row() == Seq::<ColumnValue>::empty(),
            batch.format() == format_code,
            batch.types() == types@,
    {
        DataRowBatch {
            format_code,
            types,
            num_rows: 0,
            data: BytesMut::new(),
            row: BytesMut::new(),
            written: 0,
            rows: Ghost(Seq::empty()),
            open_row: Ghost(Seq::empty()),
        }
    }

    /// The number of rows written and closed.
    pub fn num_rows(&self) -> (count: usize)
        requires
            self.wf(),
        ensures
            count == self.rows().len(),
    {
        self.num_rows
    }

    /// The number of columns of every row.
    pub fn num_cols(&self) -> (count: usize)
        requires
            self.wf(),
        ensures
            count == self.types().len(),
    {
        self.types.len()
    }

    /// The number of columns written in the open row.
    pub fn num_written(&self) -> (count: usize)
        requires
            self.wf(),
        ensures
            count == self.open_row().len(),
    {
        self.written
    }

    /// The format in which values are written.
    pub fn format_code(&self) -> (format: FormatCode)
        ensures
            format == self.format(),
    {
        self.format_code
    }

    /// The type of the column that is written next, if one is left.
    pub fn next_type(&self) -> (data_type: Option<DataTypeOid>)
        requires
            self.wf(),
        ensures
            data_type == (if self.open_row().len() < self.types().len() {
                Some(self.types()[self.open_row().len() as int])
            } else {
                None
            }),
    {
        if self.written < self.types.len() {
            Some(self.types[self.written])
        } else {
            None
        }
    }

    /// The type of the column at `index`.
    pub fn type_at(&self, index: usize) -> (data_type: DataTypeOid)
        requires
            self.wf(),
            index < self.types().len(),
        ensures
            data_type == self.types()[index as int],
    {
        self.types[index]
    }

    /// The number of bytes that the open row takes so far.
    pub fn row_size(&self) -> (size: usize)
        requires
            self.wf(),
        ensures
            size == self.open_row_size(),
    {
        self.row.len()
    }

    /// Tells whether a value of `len` bytes can be written next.
    pub fn can_write(&self, len: usize) -> (ok: bool)
        requires
            self.wf(),
        ensures
            ok == self.accepts(len as nat),
    {
        if self.written >= self.types.len() {
            return false;
        }
        let size = self.row.len();
        if size > 2147483637 || len > 2147483637 - size {
            return false;
        }
        let data_type = self.types[self.written];
        let sized = match data_type {
            DataTypeOid::Text => false,
            DataTypeOid::Unknown(_) => false,
            _ => true,
        };
        match self.format_code {
            FormatCode::Text => true,
            FormatCode::Binary => {
                if sized {
                    let declared = data_type.size_bytes();
                    assert(0 <= declared <= 8);
                    len == declared as usize
                } else {
                    true
                }
            },
        }
    }

    /// Writes null as the next column.
    pub fn write_null(&mut self)
        requires
            old(self).wf(),
            old(self).accepts_null(),
        ensures
            final(self).wf(),
            final(self).open_row() == old(self).open_row().push(None),
            final(self).rows() == old(self).rows(),
            final(self).types() == old(self).types(),
            final(self).format() == old(self).format(),
    {
        put_i32(&mut self.row, -1);
        self.written += 1;
        proof {
            let next = self.open_row@.push(None);
            assert(next.drop_last() =~= self.open_row@);
            self.open_row@ = next;
        }
    }

    /// Writes the given bytes as the next column.
    pub fn write_value(&mut self, data: &[u8])
        requires
            old(self).wf(),
            old(self).accepts(data@.len()),
        ensures
            final(self).wf(),
            final(self).open_row() == old(self).open_row().push(Some(data@)),
            final(self).rows() == old(self).rows(),
            final(self).types() == old(self).types(),
            final(self).format() == old(self).format(),
    {
        put_i32(&mut self.row, data.len() as i32);
        self.row.put_slice(data);
        self.written += 1;
        proof {
            let next = self.open_row@.push(Some(data@));
            assert(next.drop_last() =~= self.open_row@);
            assert(buffer_bytes(self.row) =~= columns_bytes(self.open_row@) + column_bytes(
                Some(data@),
            ));
            self.open_row@ = next;
        }
    }

    /// Writes a string as the next column: its UTF-8 bytes.
    pub fn write_string(&mut self, val: &str)
        requires
            old(self).wf(),
            old(self).accepts(encode_utf8(val@).len()),
        ensures
            final(self).wf(),
            final(self).open_row() == old(self).open_row().push(Some(encode_utf8(val@))),
            final(self).rows() == old(self).rows(),
            final(self).types() == old(self).types(),
            final(self).format() == old(self).format(),
    {
        self.write_value(val.as_bytes());
    }

    /// Writes a 16-bit integer as the next column: its decimal text in text
    /// format, its two bytes in binary format.
    pub fn write_int2(&mut self, val: i16)
        requires
            old(self).wf(),
            old(self).accepts(int2_value(old(self).format(), val).len()),
        ensures
            final(self).wf(),
            final(self).open_row() == old(self).open_row().push(
                Some(int2_value(old(self).format(), val)),
            ),
            final(self).rows() == old(self).rows(),
            final(self).types() == old(self).types(),
            final(self).format() == old(self).format(),
    {
        match self.format_code {
            FormatCode::Text => {
                let text = decimal_string(val as i64);
                self.write_value(text.as_str().as_bytes());
            },
            FormatCode::Binary => {
                put_i32(&mut self.row, 2);
                put_i16(&mut self.row, val);
                self.written += 1;
                proof {
                    let value = Some(be_bytes_i16(val));
                    let next = self.open_row@.push(value);
                    assert(next.drop_last() =~= self.open_row@);
                    assert(buffer_bytes(self.row) =~= columns_bytes(self.open_row@) + column_bytes(
                        value,
                    ));
                    self.open_row@ = next;
                }
            },
        }
    }

    /// Writes a 32-bit integer as the next column: its decimal text in text
    /// format, its four bytes in binary format.
    pub fn write_int4(&mut self, val: i32)
        requires
            old(self).wf(),
            old(self).accepts(int4_value(old(self).format(), val).len()),
        ensures
            final(self).wf(),
            final(self).open_row() == old(self).open_row().push(
                Some(int4_value(old(self).format(), val)),
            ),
            final(self).rows() == old(self).rows(),
            final(self).types() == old(self).types(),
            final(self).format() == old(self).format(),
    {
        match self.format_code {
            FormatCode::Text => {
                let text = decimal_string(val as i64);
                self.write_value(text.as_str().as_bytes());
            },
            FormatCode::Binary => {
                put_i32(&mut self.row, 4);
                put_i32(&mut self.row, val);
                self.written += 1;
                proof {
                    let value = Some(be_bytes_i32(val));
                    let next = self.open_row@.push(value);
                    assert(next.drop_last() =~= self.open_row@);
                    assert(buffer_bytes(self.row) =~= columns_bytes(self.open_row@) + column_bytes(
                        value,
                    ));
                    self.open_row@ = next;
                }
            },
        }
    }

    /// Writes a 64-bit integer as the next column: its decimal text in text
    /// format, its eight bytes in binary format.
    pub fn write_int8(&mut self, val: i64)
        requires
            old(self).wf(),
            old(self).accepts(int8_value(old(self).format(), val).len()),
        ensures
            final(self).wf(),
            final(self).open_row() == old(self).open_row().push(
                Some(int8_value(old(self).format(), val)),
            ),
            final(self).rows() == old(self).rows(),
            final(self).types() == old(self).types(),
            final(self).format() == old(self).format(),
    {
        match self.format_code {
            FormatCode::Text => {
                let text = decimal_string(val);
                self.write_value(text.as_str().as_bytes());
            },
            FormatCode::Binary => {
                put_i32(&mut self.row, 8);
                put_i64(&mut self.row, val);
                self.written += 1;
                proof {
                    let value = Some(be_bytes_i64(val));
                    let next = self.open_row@.push(value);
                    assert(next.drop_last() =~= self.open_row@);
                    assert(buffer_bytes(self.row) =~= columns_bytes(self.open_row@) + column_bytes(
                        value,
                    ));
                    self.open_row@ = next;
                }
            },
        }
    }

    /// Closes the open row, once it has a value for every column.
    pub fn end_row(&mut self)
        requires
            old(self).wf(),
            old(self).open_row().len() == old(self).types().len(),
        ensures
            final(self).wf(),
            final(self).rows() == old(self).rows().push(old(self).open_row()),
            final(self).open_row() == Seq::<ColumnValue>::empty(),
            final(self).types() == old(self).types(),
            final(self).format() == old(self).format(),
    {
        let size = self.row.len();
        let total = self.data.len();
        let ghost body = be_bytes_i16(self.types@.len() as i16) + columns_bytes(self.open_row@);
        put_u8(&mut self.data, 68);
        put_i32(&mut self.data, (size + 6) as i32);
        put_i16(&mut self.data, self.types.len() as i16);
        self.data.put_slice(&self.row);
        self.row.clear();
        proof {
            lemma_data_rows_bytes_len(self.rows@);
            let next = self.rows@.push(self.open_row@);
            assert(next.drop_last() =~= self.rows@);
            assert(buffer_bytes(self.data) =~= data_rows_bytes(self.rows@) + data_row_frame(
                self.open_row@,
            ));
            self.rows@ = next;
            self.open_row@ = Seq::empty();
        }
        self.num_rows += 1;
        self.written = 0;
    }

    /// Tells whether null can be written next.
    pub fn can_write_null(&self) -> (ok: bool)
        requires
            self.wf(),
        ensures
            ok == self.accepts_null(),
    {
        self.written < self.types.len() && self.row.len() <= 2147483637
    }

    /// Writes the given bytes as the next column if the batch accepts them,
    /// and says whether it did; else nothing changes.
    pub fn try_write_value(&mut self, data: &[u8]) -> (written: bool)
        requires
            old(self).wf(),
        ensures
            final(self).wf(),
            written == old(self).accepts(data@.len()),
            written ==> final(self).open_row() == old(self).open_row().push(Some(data@)),
            !written ==> final(self).open_row() == old(self).open_row(),
            final(self).rows() == old(self).rows(),
            final(self).types() == old(self).types(),
            final(self).format() == old(self).format(),
    {
        if self.can_write(data.len()) {
            self.write_value(data);
            true
        } else {
            false
        }
    }

    /// Writes null as the next column if the batch accepts it, and says
    /// whether it did; else nothing changes.
    pub fn try_write_null(&mut self) -> (written: bool)
        requires
            old(self).wf(),
        ensures
            final(self).wf(),
            written == old(self).accepts_null(),
            written ==> final(self).open_row() == old(self).open_row().push(None),
            !written ==> final(self).open_row() == old(self).open_row(),
            final(self).rows() == old(self).rows(),
            final(self).types() == old(self).types(),
            final(self).format() == old(self).format(),
    {
        if self.can_write_null() {
            self.write_null();
            true
        } else {
            false
        }
    }

    /// Closes the open row if it has a value for every column, and says
    /// whether it did; else nothing changes.
    pub fn try_end_row(&mut self) -> (closed: bool)
        requires
            old(self).wf(),
        ensures
            final(self).wf(),
            closed == (old(self).open_row().len() == old(self).types().len()),
            closed ==> final(self).rows() == old(self).rows().push(old(self).open_row())
                && final(self).open_row() == Seq::<ColumnValue>::empty(),
            !closed ==> final(self).rows() == old(self).rows() && final(self).open_row() == old(
                self,
            ).open_row(),
            final(self).types() == old(self).types(),
            final(self).format() == old(self).format(),
    {
        if self.written == self.types.len() {
            self.end_row();
            true
        } else {
            false
        }
    }

    /// Appends the frames of the closed rows to `dst`, in the order in which
    /// the rows were written.
    pub fn encode_rows(&self, dst: &mut BytesMut)
        requires
            self.wf(),
        ensures
            buffer_bytes(*final(dst)) == buffer_bytes(*old(dst)) + data_rows_bytes(self.rows()),
    {
        dst.put_slice(&self.data);
    }
}

/// Every row of a batch has one value for each column of the description.
pub proof fn lemma_row_width(batch: &DataRowBatch, i: int)
    requires
        batch.wf(),
        0 <= i < batch.rows().len(),
    ensures
        batch.rows()[i].len() == batch.types().len(),
        batch.types().len() <= 32767,
{
}

/// In binary format, every value in a column whose type declares a size has
/// that size, or is null.
pub proof fn lemma_value_size(batch: &DataRowBatch, i: int, j: int)
    requires
        batch.wf(),
        batch.format() is Binary,
        0 <= i < batch.rows().len(),
        0 <= j < batch.types().len(),
        declares_size(batch.types()[j]),
    ensures
        batch.rows()[i][j] matches Some(bytes) ==> bytes.len() == batch.types()[j].wire_size(),
{
    assert(value_fits(batch.rows()[i][j], batch.types()[j], batch.format()));
}

/// The frame of a row holds the number of its columns after tag and length,
/// and the length counts the columns' bytes, the count and itself.
pub proof fn lemma_data_row_frame(row: Seq<ColumnValue>)
    requires
        row.len() <= 32767,
        columns_bytes(row).len() + 6 <= i32::MAX,
    ensures
        data_row_frame(row)[0] == 68,
        i32_at(data_row_frame(row), 1) == columns_bytes(row).len() + 6,
        i16_at(data_row_frame(row), 5) == row.len(),
        data_row_frame(row).len() == columns_bytes(row).len() + 7,
{
    let body = be_bytes_i16(row.len() as i16) + columns_bytes(row);
    lemma_frame_length(68, body);
    lemma_i16_round_trip(row.len() as i16);
    assert(data_row_frame(row).subrange(5, 7) =~= be_bytes_i16(row.len() as i16));
}

} // verus!
