//! Column types and table schemas, and the schema of a protobuf message.

use vstd::prelude::*;
use crate::error::CacheError;
use crate::error::ErrorView;

verus! {

/// The type of a column. Six scalar kinds can be read from a batch; the others
/// can be named in a schema and no more.
#[derive(Debug, PartialEq, Eq)]
pub enum DataType {
    Boolean,
    Int32,
    Int64,
    UInt32,
    UInt64,
    Float32,
    Float64,
    Utf8,
    /// Any other type, by its name.
    Other(String),
}

/// A [`DataType`] with its name as characters.
pub enum DataTypeView {
    Boolean,
    Int32,
    Int64,
    UInt32,
    UInt64,
    Float32,
    Float64,
    Utf8,
    Other(Seq<char>),
}

impl DataTypeView {
    /// Whether values of this type can be read from a batch.
    pub open spec fn is_supported(self) -> bool {
        self is Boolean || self is Int32 || self is Int64 || self is UInt64 || self is Float64
            || self is Utf8
    }

    /// The type's name.
    pub open spec fn name(self) -> Seq<char> {
        match self {
            DataTypeView::Boolean => "Boolean"@,
            DataTypeView::Int32 => "Int32"@,
            DataTypeView::Int64 => "Int64"@,
            DataTypeView::UInt32 => "UInt32"@,
            DataTypeView::UInt64 => "UInt64"@,
            DataTypeView::Float32 => "Float32"@,
            DataTypeView::Float64 => "Float64"@,
            DataTypeView::Utf8 => "Utf8"@,
            DataTypeView::Other(name) => name,
        }
    }
}

impl View for DataType {
    type V = DataTypeView;

    open spec fn view(&self) -> DataTypeView {
        match *self {
            DataType::Boolean => DataTypeView::Boolean,
            DataType::Int32 => DataTypeView::Int32,
            DataType::Int64 => DataTypeView::Int64,
            DataType::UInt32 => DataTypeView::UInt32,
            DataType::UInt64 => DataTypeView::UInt64,
            DataType::Float32 => DataTypeView::Float32,
            DataType::Float64 => DataTypeView::Float64,
            DataType::Utf8 => DataTypeView::Utf8,
            DataType::Other(name) => DataTypeView::Other(name@),
        }
    }
}

impl DataType {
    /// Whether values of this type can be read from a batch.
    pub fn is_supported(&self) -> (r: bool)
        ensures
            r == self@.is_supported(),
    {
        match self {
            DataType::Boolean => true,
            DataType::Int32 => true,
            DataType::Int64 => true,
            DataType::UInt64 => true,
            DataType::Float64 => true,
            DataType::Utf8 => true,
            DataType::UInt32 => false,
            DataType::Float32 => false,
            DataType::Other(_) => false,
        }
    }

    /// The type's name.
    pub fn name(&self) -> (r: String)
        ensures
            r@ == self@.name(),
    {
        match self {
            DataType::Boolean => "Boolean".to_string(),
            DataType::Int32 => "Int32".to_string(),
            DataType::Int64 => "Int64".to_string(),
            DataType::UInt32 => "UInt32".to_string(),
            DataType::UInt64 => "UInt64".to_string(),
            DataType::Float32 => "Float32".to_string(),
            DataType::Float64 => "Float64".to_string(),
            DataType::Utf8 => "Utf8".to_string(),
            DataType::Other(name) => name.clone(),
        }
    }

    /// A copy of the type.
    pub fn duplicate(&self) -> (r: DataType)
        ensures
            r@ == self@,
    {
        match self {
            DataType::Boolean => DataType::Boolean,
            DataType::Int32 => DataType::Int32,
            DataType::Int64 => DataType::Int64,
            DataType::UInt32 => DataType::UInt32,
            DataType::UInt64 => DataType::UInt64,
            DataType::Float32 => DataType::Float32,
            DataType::Float64 => DataType::Float64,
            DataType::Utf8 => DataType::Utf8,
            DataType::Other(name) => DataType::Other(name.clone()),
        }
    }

    /// Whether two types are the same.
    pub fn same_as(&self, other: &DataType) -> (r: bool)
        ensures
            r == (self@ == other@),
    {
        match (self, other) {
            (DataType::Boolean, DataType::Boolean) => true,
            (DataType::Int32, DataType::Int32) => true,
            (DataType::Int64, DataType::Int64) => true,
            (DataType::UInt32, DataType::UInt32) => true,
            (DataType::UInt64, DataType::UInt64) => true,
            (DataType::Float32, DataType::Float32) => true,
            (DataType::Float64, DataType::Float64) => true,
            (DataType::Utf8, DataType::Utf8) => true,
            (DataType::Other(a), DataType::Other(b)) => *a == *b,
            _ => false,
        }
    }
}

/// A named, typed column of a schema.
#[derive(Debug, PartialEq, Eq)]
pub struct Field {
    pub name: String,
    pub data_type: DataType,
    pub nullable: bool,
}

/// A [`Field`] with its texts as characters.
pub struct FieldView {
    pub name: Seq<char>,
    pub data_type: DataTypeView,
    pub nullable: bool,
}

impl View for Field {
    type V = FieldView;

    open spec fn view(&self) -> FieldView {
        FieldView { name: self.name@, data_type: self.data_type@, nullable: self.nullable }
    }
}

impl Field {
    /// A field of the given name and type.
    pub fn new(name: &str, data_type: DataType, nullable: bool) -> (r: Field)
        ensures
            r@ == (FieldView { name: name@, data_type: data_type@, nullable }),
    {
        Field { name: name.to_string(), data_type, nullable }
    }

    /// A copy of the field.
    pub fn duplicate(&self) -> (r: Field)
        ensures
            r@ == self@,
    {
        Field {
            name: self.name.clone(),
            data_type: self.data_type.duplicate(),
            nullable: self.nullable,
        }
    }
}

/// The ordered fields of a table.
#[derive(Debug, PartialEq, Eq)]
pub struct Schema {
    pub fields: Vec<Field>,
}

impl View for Schema {
    type V = Seq<FieldView>;

    open spec fn view(&self) -> Seq<FieldView> {
        Seq::new(self.fields@.len(), |i: int| self.fields@[i]@)
    }
}

impl Schema {
    /// The schema of the given fields, in their order.
    pub fn new(fields: Vec<Field>) -> (r: Schema)
        ensures
            r.fields == fields,
    {
        Schema { fields }
    }

    /// A copy of the schema.
    pub fn duplicate(&self) -> (r: Schema)
        ensures
            r@ == self@,
    {
        let mut fields: Vec<Field> = Vec::new();
        let mut i: usize = 0;
        while i < self.fields.len()
            invariant
                i <= self.fields@.len(),
                fields@.len() == i,
                forall|j: int| 0 <= j < i ==> fields@[j]@ == self.fields@[j]@,
            decreases self.fields@.len() - i,
        {
            fields.push(self.fields[i].duplicate());
            i = i + 1;
        }
        let r = Schema { fields };
        assert(r@ =~= self@);
        r
    }
}

/// The scalar and composite kinds of a protobuf field.
#[derive(Clone, Copy, Debug, PartialEq, Eq, Structural)]
pub enum ProtoKind {
    Double,
    Float,
    Int32,
    Int64,
    Uint32,
    Uint64,
    Sint32,
    Sint64,
    Fixed32,
    Fixed64,
    Sfixed32,
    Sfixed64,
    Bool,
    String,
    Bytes,
    Message,
    Enum,
}

impl ProtoKind {
    /// The column type that holds a field of this kind; none for messages and
    /// enums.
    pub open spec fn column_type(self) -> Option<DataTypeView> {
        match self {
            ProtoKind::Int32 | ProtoKind::Sint32 | ProtoKind::Sfixed32 => Some(DataTypeView::Int32),
            ProtoKind::Int64 | ProtoKind::Sint64 | ProtoKind::Sfixed64 => Some(DataTypeView::Int64),
            ProtoKind::Uint32 | ProtoKind::Fixed32 => Some(DataTypeView::UInt32),
            ProtoKind::Uint64 | ProtoKind::Fixed64 => Some(DataTypeView::UInt64),
            ProtoKind::Float => Some(DataTypeView::Float32),
            ProtoKind::Double => Some(DataTypeView::Float64),
            ProtoKind::Bool => Some(DataTypeView::Boolean),
            ProtoKind::String | ProtoKind::Bytes => Some(DataTypeView::Utf8),
            ProtoKind::Message | ProtoKind::Enum => None,
        }
    }

    /// The kind's name.
    pub open spec fn name(self) -> Seq<char> {
        match self {
            ProtoKind::Double => "Double"@,
            ProtoKind::Float => "Float"@,
            ProtoKind::Int32 => "Int32"@,
            ProtoKind::Int64 => "Int64"@,
            ProtoKind::Uint32 => "Uint32"@,
            ProtoKind::Uint64 => "Uint64"@,
            ProtoKind::Sint32 => "Sint32"@,
            ProtoKind::Sint64 => "Sint64"@,
            ProtoKind::Fixed32 => "Fixed32"@,
            ProtoKind::Fixed64 => "Fixed64"@,
            ProtoKind::Sfixed32 => "Sfixed32"@,
            ProtoKind::Sfixed64 => "Sfixed64"@,
            ProtoKind::Bool => "Bool"@,
            ProtoKind::String => "String"@,
            ProtoKind::Bytes => "Bytes"@,
            ProtoKind::Message => "Message"@,
            ProtoKind::Enum => "Enum"@,
        }
    }

    /// The column type that holds a field of this kind, or the kind's name
    /// where there is none.
    pub fn to_column_type(self) -> (r: Result<DataType, String>)
        ensures
            match r {
                Ok(t) => self.column_type() == Some(t@),
                Err(name) => self.column_type() is None && name@ == self.name(),
            },
    {
        match self {
            ProtoKind::Int32 | ProtoKind::Sint32 | ProtoKind::Sfixed32 => Ok(DataType::Int32),
            ProtoKind::Int64 | ProtoKind::Sint64 | ProtoKind::Sfixed64 => Ok(DataType::Int64),
            ProtoKind::Uint32 | ProtoKind::Fixed32 => Ok(DataType::UInt32),
            ProtoKind::Uint64 | ProtoKind::Fixed64 => Ok(DataType::UInt64),
            ProtoKind::Float => Ok(DataType::Float32),
            ProtoKind::Double => Ok(DataType::Float64),
            ProtoKind::Bool => Ok(DataType::Boolean),
            ProtoKind::String | ProtoKind::Bytes => Ok(DataType::Utf8),
            ProtoKind::Message => Err("Message".to_string()),
            ProtoKind::Enum => Err("Enum".to_string()),
        }
    }
}

/// One field of a protobuf message: its name and kind.
#[derive(Debug, PartialEq, Eq)]
pub struct ProtoField {
    pub name: String,
    pub kind: ProtoKind,
}

/// The index of the first field from `from` on whose kind no column type
/// holds; the number of fields where there is none.
pub open spec fn first_unmapped(fields: Seq<ProtoField>, from: int) -> int
    decreases fields.len() - from,
{
    if from < 0 || from >= fields.len() || fields[from].kind.column_type() is None {
        from
    } else {
        first_unmapped(fields, from + 1)
    }
}

/// The schema of a message whose fields all map to column types: one
/// non-nullable field for each, of the same name, in the message's order.
pub open spec fn proto_schema(fields: Seq<ProtoField>) -> Seq<FieldView> {
    Seq::new(
        fields.len(),
        |i: int|
            FieldView {
                name: fields[i].name@,
                data_type: fields[i].kind.column_type()->Some_0,
                nullable: false,
            },
    )
}

/// The table schema of a protobuf message, given as its fields in order.
///
/// Fails on the first field that is a message or an enum, naming its kind.
pub fn create_schema_from_proto(fields: &Vec<ProtoField>) -> (r: Result<Schema, CacheError>)
    ensures
        match r {
            Ok(schema) => first_unmapped(fields@, 0) == fields@.len() && schema@ == proto_schema(
                fields@,
            ),
            Err(e) => {
                let at = first_unmapped(fields@, 0);
                0 <= at < fields@.len() && e@ == (ErrorView::UnsupportedType {
                    data_type: fields@[at].kind.name(),
                })
            },
        },
{
    let mut out: Vec<Field> = Vec::new();
    let mut i: usize = 0;
    while i < fields.len()
        invariant
            i <= fields@.len(),
            out@.len() == i,
            first_unmapped(fields@, 0) == first_unmapped(fields@, i as int),
            forall|j: int| 0 <= j < i ==> out@[j]@ == proto_schema(fields@)[j],
        decreases fields@.len() - i,
    {
        match fields[i].kind.to_column_type() {
            Ok(data_type) => {
                out.push(Field { name: fields[i].name.clone(), data_type, nullable: false });
            },
            Err(name) => {
                return Err(CacheError::UnsupportedType { data_type: name });
            },
        }
        i = i + 1;
    }
    let schema = Schema { fields: out };
    assert(schema@ =~= proto_schema(fields@));
    Ok(schema)
}

} // verus!
