//! The table of an external analytical database, as far as it is described:
//! its schema. Scanning it is not part of this library.

use vstd::prelude::*;
use crate::schema::DataType;
use crate::schema::DataTypeView;
use crate::schema::Field;
use crate::schema::FieldView;
use crate::schema::Schema;

verus! {

/// A table held in an external analytical database.
#[derive(Debug, Clone, Copy)]
pub struct ClickHouseTableProvider {}

impl ClickHouseTableProvider {
    /// The fields of the table: `id` and `name`, which are always there, then
    /// `age` and `email`, which may be null.
    pub open spec fn table_schema() -> Seq<FieldView> {
        seq![
            FieldView { name: "id"@, data_type: DataTypeView::Int32, nullable: false },
            FieldView { name: "name"@, data_type: DataTypeView::Utf8, nullable: false },
            FieldView { name: "age"@, data_type: DataTypeView::Int32, nullable: true },
            FieldView { name: "email"@, data_type: DataTypeView::Utf8, nullable: true },
        ]
    }

    pub fn new() -> (r: Self)
        ensures
            r == (ClickHouseTableProvider {  }),
    {
        ClickHouseTableProvider {  }
    }

    /// The table's schema.
    pub fn schema(&self) -> (r: Schema)
        ensures
            r@ == Self::table_schema(),
    {
        let mut fields: Vec<Field> = Vec::new();
        fields.push(Field::new("id", DataType::Int32, false));
        fields.push(Field::new("name", DataType::Utf8, false));
        fields.push(Field::new("age", DataType::Int32, true));
        fields.push(Field::new("email", DataType::Utf8, true));
        let r = Schema::new(fields);
        assert(r@ =~= Self::table_schema());
        r
    }
}

} // verus!
