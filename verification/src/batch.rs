//! Columns and batches of query results, and the rows read from them.

use vstd::prelude::*;
use crate::error::CacheError;
use crate::error::ErrorView;
use crate::keyed::put;
use crate::row::Row;
use crate::row::row_views;
use crate::row::RowView;
use crate::row::Value;
use crate::row::ValueView;
use crate::schema::DataType;
use crate::schema::DataTypeView;
use crate::schema::FieldView;
use crate::schema::Schema;

verus! {

/// Whether the bits are those of a finite double: the eleven exponent bits
/// are not all set.
pub open spec fn finite_bits(bits: u64) -> bool {
    (bits >> 52) & 0x7ff != 0x7ff
}

/// Whether the bits are those of a finite double.
pub fn is_finite_bits(bits: u64) -> (r: bool)
    ensures
        r == finite_bits(bits),
{
    (bits >> 52) & 0x7ff != 0x7ff
}

/// The values of one column, top to bottom.
#[derive(Debug, PartialEq, Eq)]
pub enum Column {
    Boolean(Vec<bool>),
    Int32(Vec<i32>),
    Int64(Vec<i64>),
    UInt64(Vec<u64>),
    /// Doubles, each by its IEEE-754 bits.
    Float64(Vec<u64>),
    Utf8(Vec<String>),
    /// A column whose values are not read: only its type and its length
    /// are kept.
    Opaque { data_type: DataType, len: usize },
}

impl Column {
    /// The number of values.
    pub open spec fn height(&self) -> nat {
        match *self {
            Column::Boolean(v) => v@.len(),
            Column::Int32(v) => v@.len(),
            Column::Int64(v) => v@.len(),
            Column::UInt64(v) => v@.len(),
            Column::Float64(v) => v@.len(),
            Column::Utf8(v) => v@.len(),
            Column::Opaque { len, .. } => len as nat,
        }
    }

    /// The type of the values.
    pub open spec fn kind(&self) -> DataTypeView {
        match *self {
            Column::Boolean(_) => DataTypeView::Boolean,
            Column::Int32(_) => DataTypeView::Int32,
            Column::Int64(_) => DataTypeView::Int64,
            Column::UInt64(_) => DataTypeView::UInt64,
            Column::Float64(_) => DataTypeView::Float64,
            Column::Utf8(_) => DataTypeView::Utf8,
            Column::Opaque { data_type, .. } => data_type@,
        }
    }

    /// Whether the values can be read.
    pub open spec fn readable(&self) -> bool {
        !(self is Opaque)
    }

    /// The value at `index` of a readable column. A double that is not finite
    /// reads as null.
    pub open spec fn cell(&self, index: int) -> ValueView {
        match *self {
            Column::Boolean(v) => ValueView::Bool(v@[index]),
            Column::Int32(v) => ValueView::Integer(v@[index] as int),
            Column::Int64(v) => ValueView::Integer(v@[index] as int),
            Column::UInt64(v) => ValueView::Integer(v@[index] as int),
            Column::Float64(v) => if finite_bits(v@[index]) {
                ValueView::Float(v@[index])
            } else {
                ValueView::Null
            },
            Column::Utf8(v) => ValueView::Text(v@[index]@),
            Column::Opaque { .. } => ValueView::Null,
        }
    }

    /// The number of values.
    pub fn len(&self) -> (n: usize)
        ensures
            n == self.height(),
    {
        match self {
            Column::Boolean(v) => v.len(),
            Column::Int32(v) => v.len(),
            Column::Int64(v) => v.len(),
            Column::UInt64(v) => v.len(),
            Column::Float64(v) => v.len(),
            Column::Utf8(v) => v.len(),
            Column::Opaque { len, .. } => *len,
        }
    }

    /// The type of the values.
    pub fn data_type(&self) -> (r: DataType)
        ensures
            r@ == self.kind(),
    {
        match self {
            Column::Boolean(_) => DataType::Boolean,
            Column::Int32(_) => DataType::Int32,
            Column::Int64(_) => DataType::Int64,
            Column::UInt64(_) => DataType::UInt64,
            Column::Float64(_) => DataType::Float64,
            Column::Utf8(_) => DataType::Utf8,
            Column::Opaque { data_type, .. } => data_type.duplicate(),
        }
    }

    /// Whether the values can be read.
    pub fn is_readable(&self) -> (r: bool)
        ensures
            r == self.readable(),
    {
        match self {
            Column::Opaque { .. } => false,
            _ => true,
        }
    }

    /// The empty column of a type: readable where the type is supported.
    pub fn empty(data_type: &DataType) -> (r: Column)
        ensures
            r.height() == 0,
            r.kind() == data_type@,
            r.readable() == data_type@.is_supported(),
    {
        match data_type {
            DataType::Boolean => Column::Boolean(Vec::new()),
            DataType::Int32 => Column::Int32(Vec::new()),
            DataType::Int64 => Column::Int64(Vec::new()),
            DataType::UInt64 => Column::UInt64(Vec::new()),
            DataType::Float64 => Column::Float64(Vec::new()),
            DataType::Utf8 => Column::Utf8(Vec::new()),
            _ => Column::Opaque { data_type: data_type.duplicate(), len: 0 },
        }
    }
}

/// The value at `index` of a column.
///
/// A column that cannot be read gives the failure that names its type,
/// whatever the index.
pub fn get_value_at(column: &Column, index: usize) -> (r: Result<Value, CacheError>)
    requires
        column.readable() ==> index < column.height(),
    ensures
        match r {
            Ok(value) => column.readable() && value@ == column.cell(index as int),
            Err(e) => !column.readable() && e@ == (ErrorView::UnsupportedType {
                data_type: column.kind().name(),
            }),
        },
{
    match column {
        Column::Boolean(v) => Ok(Value::Bool(v[index])),
        Column::Int32(v) => Ok(Value::Int(v[index] as i64)),
        Column::Int64(v) => Ok(Value::Int(v[index])),
        Column::UInt64(v) => Ok(Value::UInt(v[index])),
        Column::Float64(v) => {
            let bits = v[index];
            if is_finite_bits(bits) {
                Ok(Value::Float(bits))
            } else {
                Ok(Value::Null)
            }
        },
        Column::Utf8(v) => Ok(Value::Text(v[index].clone())),
        Column::Opaque { data_type, .. } => Err(
            CacheError::UnsupportedType { data_type: data_type.name() },
        ),
    }
}


/// The index of the first field from `from` on whose type is not supported;
/// the number of fields where there is none.
pub open spec fn first_unsupported(fields: Seq<FieldView>, from: int) -> int
    decreases fields.len() - from,
{
    if from < 0 || from >= fields.len() || !fields[from].data_type.is_supported() {
        from
    } else {
        first_unsupported(fields, from + 1)
    }
}

/// `first_unsupported` lies between its starting point and the number of
/// fields.
pub proof fn first_unsupported_bounds(fields: Seq<FieldView>, from: int)
    requires
        0 <= from <= fields.len(),
    ensures
        from <= first_unsupported(fields, from) <= fields.len(),
    decreases fields.len() - from,
{
    if from < fields.len() && fields[from].data_type.is_supported() {
        first_unsupported_bounds(fields, from + 1);
    }
}

/// One empty column for each field of a schema, of the field's type.
///
/// Fails on the first field whose type is not supported, naming the type.
pub fn create_empty_columns(schema: &Schema) -> (r: Result<Vec<Column>, CacheError>)
    ensures
        match r {
            Ok(columns) => {
                &&& first_unsupported(schema@, 0) == schema@.len()
                &&& columns@.len() == schema@.len()
                &&& forall|i: int|
                    0 <= i < columns@.len() ==> {
                        &&& (#[trigger] columns@[i]).height() == 0
                        &&& columns@[i].readable()
                        &&& columns@[i].kind() == schema@[i].data_type
                    }
            },
            Err(e) => {
                let at = first_unsupported(schema@, 0);
                0 <= at < schema@.len() && e@ == (ErrorView::UnsupportedType {
                    data_type: schema@[at].data_type.name(),
                })
            },
        },
{
    let mut columns: Vec<Column> = Vec::new();
    let mut i: usize = 0;
    while i < schema.fields.len()
        invariant
            i <= schema.fields@.len(),
            schema@.len() == schema.fields@.len(),
            columns@.len() == i,
            first_unsupported(schema@, 0) == first_unsupported(schema@, i as int),
            forall|j: int|
                0 <= j < i ==> {
                    &&& (#[trigger] columns@[j]).height() == 0
                    &&& columns@[j].readable()
                    &&& columns@[j].kind() == schema@[j].data_type
                },
        decreases schema.fields@.len() - i,
    {
        let data_type = &schema.fields[i].data_type;
        assert(schema@[i as int].data_type == data_type@);
        if !data_type.is_supported() {
            return Err(CacheError::UnsupportedType { data_type: data_type.name() });
        }
        columns.push(Column::empty(data_type));
        i = i + 1;
    }
    Ok(columns)
}

/// Whether a column fits a field and a height: it has the field's type and
/// the height, and it is readable exactly where the type is supported.
pub open spec fn fits(column: Column, field: FieldView, height: nat) -> bool {
    &&& column.kind() == field.data_type
    &&& column.height() == height
    &&& column.readable() == field.data_type.is_supported()
}

/// The index of the first column from `from` on that does not fit its field
/// and the height; the number of columns where all fit.
pub open spec fn first_misfit(
    fields: Seq<FieldView>,
    columns: Seq<Column>,
    height: nat,
    from: int,
) -> int
    decreases columns.len() - from,
{
    if from < 0 || from >= columns.len() || from >= fields.len() || !fits(
        columns[from],
        fields[from],
        height,
    ) {
        from
    } else {
        first_misfit(fields, columns, height, from + 1)
    }
}

/// `first_misfit` lies between its starting point and the number of
/// columns.
pub proof fn first_misfit_bounds(
    fields: Seq<FieldView>,
    columns: Seq<Column>,
    height: nat,
    from: int,
)
    requires
        0 <= from <= columns.len(),
    ensures
        from <= first_misfit(fields, columns, height, from) <= columns.len(),
    decreases columns.len() - from,
{
    if from < columns.len() && from < fields.len() && fits(columns[from], fields[from], height) {
        first_misfit_bounds(fields, columns, height, from + 1);
    }
}

/// The height that a batch of these columns has: that of the first column,
/// and zero without columns.
pub open spec fn common_height(columns: Seq<Column>) -> nat {
    if columns.len() == 0 {
        0
    } else {
        columns[0].height()
    }
}

/// A block of rows with a fixed schema: one column for each field, all of
/// one height.
#[derive(Debug, PartialEq, Eq)]
pub struct Batch {
    schema: Schema,
    columns: Vec<Column>,
    num_rows: usize,
}

impl Batch {
    /// The fields, in order.
    pub closed spec fn fields(&self) -> Seq<FieldView> {
        self.schema@
    }

    /// The columns, in the order of the fields.
    pub closed spec fn columns(&self) -> Seq<Column> {
        self.columns@
    }

    /// The number of rows.
    pub closed spec fn rows(&self) -> nat {
        self.num_rows as nat
    }

    /// What holds of every batch: there is one column for each field, and
    /// each column fits its field and the number of rows.
    pub open spec fn wf(&self) -> bool {
        &&& self.columns().len() == self.fields().len()
        &&& forall|i: int|
            0 <= i < self.columns().len() ==> fits(
                #[trigger] self.columns()[i],
                self.fields()[i],
                self.rows(),
            )
    }

    #[verifier::type_invariant]
    closed spec fn inv(&self) -> bool {
        self.wf()
    }

    /// The row at `row` as far as the first `upto` columns fill it: each
    /// column puts its value under its field's name, so that of two columns
    /// of one name the later one is read.
    pub open spec fn row_prefix(&self, row: int, upto: int) -> RowView
        decreases upto,
    {
        if upto <= 0 {
            RowView::empty()
        } else {
            put(
                self.row_prefix(row, upto - 1),
                self.fields()[upto - 1].name,
                self.columns()[upto - 1].cell(row),
            )
        }
    }

    /// The row at `row`.
    pub open spec fn row(&self, row: int) -> RowView {
        self.row_prefix(row, self.columns().len() as int)
    }

    /// All rows, top to bottom.
    pub open spec fn all_rows(&self) -> Seq<RowView> {
        Seq::new(self.rows(), |r: int| self.row(r))
    }

    /// The index of the first column from `from` on that cannot be read; the
    /// number of columns where all can.
    pub open spec fn first_unreadable(&self, from: int) -> int
        decreases self.columns().len() - from,
    {
        if from < 0 || from >= self.columns().len() || !self.columns()[from].readable() {
            from
        } else {
            self.first_unreadable(from + 1)
        }
    }

    /// Whether every column can be read.
    pub open spec fn is_readable(&self) -> bool {
        self.first_unreadable(0) == self.columns().len()
    }

    /// The failure of a batch that cannot be read: it names the type of the
    /// first column that cannot.
    pub open spec fn unreadable(&self) -> ErrorView {
        ErrorView::UnsupportedType {
            data_type: self.columns()[self.first_unreadable(0)].kind().name(),
        }
    }

    /// The batch of a schema and its columns.
    ///
    /// Fails where the number of columns is not the number of fields, with
    /// the number of columns; and where a column does not fit its field or
    /// has another height than the first column, with the first such
    /// column's index.
    pub fn try_new(schema: Schema, columns: Vec<Column>) -> (r: Result<Batch, CacheError>)
        ensures
            match r {
                Ok(batch) => {
                    &&& columns@.len() == schema@.len()
                    &&& first_misfit(schema@, columns@, common_height(columns@), 0)
                        == columns@.len()
                    &&& batch.wf()
                    &&& batch.fields() == schema@
                    &&& batch.columns() == columns@
                    &&& batch.rows() == common_height(columns@)
                },
                Err(e) => if columns@.len() != schema@.len() {
                    e@ == (ErrorView::SchemaMismatch { column: columns@.len() as usize })
                } else {
                    let at = first_misfit(schema@, columns@, common_height(columns@), 0);
                    0 <= at < columns@.len() && e@ == (ErrorView::SchemaMismatch {
                        column: at as usize,
                    })
                },
            },
    {
        if columns.len() != schema.fields.len() {
            return Err(CacheError::SchemaMismatch { column: columns.len() });
        }
        let num_rows: usize = if columns.len() == 0 {
            0
        } else {
            columns[0].len()
        };
        let mut i: usize = 0;
        while i < columns.len()
            invariant
                i <= columns@.len(),
                columns@.len() == schema.fields@.len(),
                schema@.len() == schema.fields@.len(),
                num_rows == common_height(columns@),
                first_misfit(schema@, columns@, num_rows as nat, 0) == first_misfit(
                    schema@,
                    columns@,
                    num_rows as nat,
                    i as int,
                ),
                forall|j: int|
                    0 <= j < i ==> fits(#[trigger] columns@[j], schema@[j], num_rows as nat),
            decreases columns@.len() - i,
        {
            let column = &columns[i];
            let field = &schema.fields[i];
            assert(schema@[i as int].data_type == field.data_type@);
            let fitting = column.data_type().same_as(&field.data_type) && column.len() == num_rows
                && column.is_readable() == field.data_type.is_supported();
            if !fitting {
                return Err(CacheError::SchemaMismatch { column: i });
            }
            i = i + 1;
        }
        Ok(Batch { schema, columns, num_rows })
    }

    /// The number of rows.
    pub fn num_rows(&self) -> (n: usize)
        ensures
            n == self.rows(),
    {
        self.num_rows
    }

    /// The number of columns.
    pub fn num_columns(&self) -> (n: usize)
        ensures
            n == self.columns().len(),
            n == self.fields().len(),
    {
        proof {
            use_type_invariant(self);
        }
        self.columns.len()
    }

    /// The schema.
    pub fn schema(&self) -> (r: &Schema)
        ensures
            r@ == self.fields(),
    {
        &self.schema
    }

    /// The column at `index`.
    pub fn column(&self, index: usize) -> (r: &Column)
        requires
            index < self.columns().len(),
        ensures
            *r == self.columns()[index as int],
            fits(*r, self.fields()[index as int], self.rows()),
    {
        proof {
            use_type_invariant(self);
        }
        &self.columns[index]
    }

    /// The name of the column at `index`.
    pub fn column_name(&self, index: usize) -> (r: &String)
        requires
            index < self.columns().len(),
        ensures
            r@ == self.fields()[index as int].name,
    {
        proof {
            use_type_invariant(self);
        }
        &self.schema.fields[index].name
    }

    /// The index of the first column that cannot be read; the number of
    /// columns where all can.
    pub fn find_unreadable(&self) -> (at: usize)
        ensures
            at == self.first_unreadable(0),
            at <= self.columns().len(),
    {
        let mut i: usize = 0;
        while i < self.columns.len()
            invariant
                i <= self.columns@.len(),
                self.columns() == self.columns@,
                self.first_unreadable(0) == self.first_unreadable(i as int),
            decreases self.columns@.len() - i,
        {
            if !self.columns[i].is_readable() {
                return i;
            }
            i = i + 1;
        }
        i
    }

    /// The row at `row` of a batch whose columns can all be read.
    pub fn row_at(&self, row: usize) -> (r: Row)
        requires
            row < self.rows(),
            self.is_readable(),
        ensures
            r@ == self.row(row as int),
    {
        proof {
            use_type_invariant(self);
        }
        let mut out = Row::new();
        let mut c: usize = 0;
        while c < self.columns.len()
            invariant
                c <= self.columns@.len(),
                self.wf(),
                self.columns() == self.columns@,
                self.fields() == self.schema@,
                self.schema@.len() == self.schema.fields@.len(),
                row < self.rows(),
                self.first_unreadable(0) == self.columns().len(),
                self.first_unreadable(0) == self.first_unreadable(c as int),
                out@ == self.row_prefix(row as int, c as int),
            decreases self.columns@.len() - c,
        {
            let column = &self.columns[c];
            assert(fits(self.columns()[c as int], self.fields()[c as int], self.rows()));
            assert(self.schema@[c as int].name == self.schema.fields@[c as int].name@);
            if let Ok(value) = get_value_at(column, row) {
                out.insert(self.schema.fields[c].name.clone(), value);
            }
            c = c + 1;
        }
        out
    }
}


/// Columns that are empty, readable and of their fields' types fit their
/// fields, whatever the number of fields.
pub proof fn supported_fit(fields: Seq<FieldView>, columns: Seq<Column>, from: int)
    requires
        0 <= from <= columns.len(),
        columns.len() == fields.len(),
        first_unsupported(fields, from) == fields.len(),
        forall|i: int|
            0 <= i < columns.len() ==> {
                &&& (#[trigger] columns[i]).height() == 0
                &&& columns[i].readable()
                &&& columns[i].kind() == fields[i].data_type
            },
    ensures
        first_misfit(fields, columns, 0, from) == columns.len(),
    decreases columns.len() - from,
{
    if from < columns.len() {
        supported_fit(fields, columns, from + 1);
        assert(fits(columns[from], fields[from], 0));
    }
}

/// The empty table of a schema: one empty column for each field.
///
/// Fails on the first field whose type is not supported, naming the type.
pub fn empty_table(schema: &Schema) -> (r: Result<Batch, CacheError>)
    ensures
        match r {
            Ok(batch) => {
                &&& first_unsupported(schema@, 0) == schema@.len()
                &&& batch.wf()
                &&& batch.fields() == schema@
                &&& batch.rows() == 0
                &&& batch.is_readable()
            },
            Err(e) => {
                let at = first_unsupported(schema@, 0);
                0 <= at < schema@.len() && e@ == (ErrorView::UnsupportedType {
                    data_type: schema@[at].data_type.name(),
                })
            },
        },
{
    let columns = match create_empty_columns(schema) {
        Ok(columns) => columns,
        Err(e) => {
            return Err(e);
        },
    };
    proof {
        supported_fit(schema@, columns@, 0);
    }
    let r = Batch::try_new(schema.duplicate(), columns);
    proof {
        first_misfit_bounds(schema@, columns@, 0, 0);
        if r is Ok {
            supported_is_readable(r->Ok_0, 0);
        }
    }
    r
}

/// A batch whose fields all have supported types from `from` on can be read
/// from there on.
pub proof fn supported_is_readable(table: Batch, from: int)
    requires
        table.wf(),
        0 <= from <= table.columns().len(),
        first_unsupported(table.fields(), from) == table.fields().len(),
    ensures
        table.first_unreadable(from) == table.columns().len(),
    decreases table.columns().len() - from,
{
    if from < table.columns().len() {
        assert(fits(table.columns()[from], table.fields()[from], table.rows()));
        supported_is_readable(table, from + 1);
    }
}

/// In a batch whose columns can all be read from `from` on, every field
/// from there on has a supported type.
pub proof fn readable_column_is_supported(table: Batch, from: int, at: int)
    requires
        table.wf(),
        0 <= from <= at < table.columns().len(),
        table.first_unreadable(from) == table.columns().len(),
    ensures
        table.fields()[at].data_type.is_supported(),
    decreases at - from,
{
    if from < at {
        readable_column_is_supported(table, from + 1, at);
    } else {
        assert(fits(table.columns()[at], table.fields()[at], table.rows()));
    }
}

/// The index of the first batch from `from` on with a column that cannot be
/// read; the number of batches where there is none.
pub open spec fn first_unreadable_batch(batches: Seq<Batch>, from: int) -> int
    decreases batches.len() - from,
{
    if from < 0 || from >= batches.len() || !batches[from].is_readable() {
        from
    } else {
        first_unreadable_batch(batches, from + 1)
    }
}

/// `first_unreadable_batch` lies between its starting point and the number
/// of batches.
pub proof fn first_unreadable_batch_bounds(batches: Seq<Batch>, from: int)
    requires
        0 <= from <= batches.len(),
    ensures
        from <= first_unreadable_batch(batches, from) <= batches.len(),
    decreases batches.len() - from,
{
    if from < batches.len() && batches[from].is_readable() {
        first_unreadable_batch_bounds(batches, from + 1);
    }
}

/// The rows of all batches: batch after batch, and within a batch top to
/// bottom.
pub open spec fn rows_of(batches: Seq<Batch>) -> Seq<RowView>
    decreases batches.len(),
{
    if batches.len() == 0 {
        Seq::empty()
    } else {
        rows_of(batches.drop_last()) + batches.last().all_rows()
    }
}

/// The rows of all batches, in the order of the batches and, within each,
/// top to bottom.
///
/// Fails if any batch, with or without rows, has a column that cannot be
/// read: no row is handed out then. The failure names the type of the first
/// such column of the first such batch.
pub fn extract_rows(batches: &Vec<Batch>) -> (r: Result<Vec<Row>, CacheError>)
    ensures
        match r {
            Ok(rows) => {
                &&& first_unreadable_batch(batches@, 0) == batches@.len()
                &&& row_views(rows@) == rows_of(batches@)
            },
            Err(e) => {
                let at = first_unreadable_batch(batches@, 0);
                0 <= at < batches@.len() && e@ == batches@[at].unreadable()
            },
        },
{
    let mut b: usize = 0;
    while b < batches.len()
        invariant
            b <= batches@.len(),
            first_unreadable_batch(batches@, 0) == first_unreadable_batch(batches@, b as int),
        decreases batches@.len() - b,
    {
        let batch = &batches[b];
        let at = batch.find_unreadable();
        if at < batch.num_columns() {
            return Err(
                CacheError::UnsupportedType { data_type: batch.column(at).data_type().name() },
            );
        }
        b = b + 1;
    }
    let mut rows: Vec<Row> = Vec::new();
    let mut b: usize = 0;
    assert(batches@.take(0) =~= Seq::<Batch>::empty());
    while b < batches.len()
        invariant
            b <= batches@.len(),
            first_unreadable_batch(batches@, 0) == batches@.len(),
            row_views(rows@) == rows_of(batches@.take(b as int)),
        decreases batches@.len() - b,
    {
        let batch = &batches[b];
        proof {
            unreadable_batch_is_first(batches@, 0, b as int);
        }
        let ghost before = rows@;
        let mut i: usize = 0;
        while i < batch.num_rows()
            invariant
                i <= batch.rows(),
                batch.is_readable(),
                row_views(rows@) == row_views(before) + batch.all_rows().take(i as int),
            decreases batch.rows() - i,
        {
            let row = batch.row_at(i);
            let ghost earlier = rows@;
            rows.push(row);
            proof {
                let grown = row_views(before) + batch.all_rows().take(i + 1);
                assert(row_views(earlier).len() == earlier.len());
                assert forall|k: int| 0 <= k < grown.len() implies row_views(rows@)[k]
                    == grown[k] by {
                    if k < earlier.len() {
                        assert(row_views(earlier)[k] == earlier[k]@);
                    }
                }
                assert(row_views(rows@) =~= grown);
            }
            i = i + 1;
        }
        proof {
            let next = batches@.take(b + 1);
            assert(next.drop_last() =~= batches@.take(b as int));
            assert(next.last() == batch);
            assert(batch.all_rows().take(i as int) =~= batch.all_rows());
        }
        b = b + 1;
    }
    assert(batches@.take(b as int) =~= batches@);
    Ok(rows)
}

/// Of batches none of which is counted unreadable from `from` on, each one
/// from there on can be read.
pub proof fn unreadable_batch_is_first(batches: Seq<Batch>, from: int, at: int)
    requires
        0 <= from <= at < batches.len(),
        first_unreadable_batch(batches, from) == batches.len(),
    ensures
        batches[at].is_readable(),
    decreases at - from,
{
    if from < at {
        unreadable_batch_is_first(batches, from + 1, at);
    }
}

/// The index of the first batch from `from` on that has a row; the number
/// of batches where none has.
pub open spec fn first_with_rows(batches: Seq<Batch>, from: int) -> int
    decreases batches.len() - from,
{
    if from < 0 || from >= batches.len() || batches[from].rows() > 0 {
        from
    } else {
        first_with_rows(batches, from + 1)
    }
}

/// `first_with_rows` lies between its starting point and the number of
/// batches.
pub proof fn first_with_rows_bounds(batches: Seq<Batch>, from: int)
    requires
        0 <= from <= batches.len(),
    ensures
        from <= first_with_rows(batches, from) <= batches.len(),
    decreases batches.len() - from,
{
    if from < batches.len() && batches[from].rows() == 0 {
        first_with_rows_bounds(batches, from + 1);
    }
}

/// Leaving out the last batch changes the first batch with a row only if
/// there is none before the last: then it is the last batch, if that has a
/// row, and else there is none.
pub proof fn first_with_rows_without_last(batches: Seq<Batch>, from: int)
    requires
        batches.len() > 0,
        0 <= from <= batches.len() - 1,
    ensures
        ({
            let before = first_with_rows(batches.drop_last(), from);
            let all = first_with_rows(batches, from);
            if before < batches.len() - 1 {
                all == before
            } else if batches.last().rows() > 0 {
                all == batches.len() - 1
            } else {
                all == batches.len()
            }
        }),
    decreases batches.len() - from,
{
    let shorter = batches.drop_last();
    if from < batches.len() - 1 {
        assert(shorter[from] == batches[from]);
        if batches[from].rows() == 0 {
            first_with_rows_without_last(batches, from + 1);
        }
    } else {
        first_with_rows_bounds(batches, from + 1);
    }
}

/// The first of all rows is the top row of the first batch that has a row;
/// without such a batch there is no row at all. So what
/// [`first_row`] reads is the first of the rows that [`extract_rows`]
/// reads.
pub proof fn first_row_is_first_of_rows(batches: Seq<Batch>)
    ensures
        ({
            let at = first_with_rows(batches, 0);
            if 0 <= at < batches.len() {
                rows_of(batches).len() > 0 && rows_of(batches)[0] == batches[at].row(0)
            } else {
                rows_of(batches).len() == 0
            }
        }),
    decreases batches.len(),
{
    first_with_rows_bounds(batches, 0);
    if batches.len() > 0 {
        let shorter = batches.drop_last();
        first_row_is_first_of_rows(shorter);
        first_with_rows_bounds(shorter, 0);
        first_with_rows_without_last(batches, 0);
        let before = first_with_rows(shorter, 0);
        if before < shorter.len() {
            assert(shorter[before] == batches[before]);
        }
    }
}

/// The first row of all batches, if there is any row.
///
/// Only the batch that holds the first row is looked at: the call fails if
/// that batch has a column that cannot be read, naming the type of the first.
pub fn first_row(batches: &Vec<Batch>) -> (r: Result<Option<Row>, CacheError>)
    ensures
        ({
            let at = first_with_rows(batches@, 0);
            if at >= batches@.len() {
                r matches Ok(None)
            } else if batches@[at].is_readable() {
                r matches Ok(Some(row)) && row@ == batches@[at].row(0)
            } else {
                r matches Err(e) && e@ == batches@[at].unreadable()
            }
        }),
{
    let mut b: usize = 0;
    while b < batches.len()
        invariant
            b <= batches@.len(),
            first_with_rows(batches@, 0) == first_with_rows(batches@, b as int),
        decreases batches@.len() - b,
    {
        let batch = &batches[b];
        if batch.num_rows() > 0 {
            let at = batch.find_unreadable();
            if at < batch.num_columns() {
                return Err(
                    CacheError::UnsupportedType { data_type: batch.column(at).data_type().name() },
                );
            }
            return Ok(Some(batch.row_at(0)));
        }
        b = b + 1;
    }
    Ok(None)
}

} // verus!