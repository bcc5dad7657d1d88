//! Scalar values, rows keyed by column name, and the bridge to the caller's
//! row type.

use vstd::prelude::*;
use crate::error::CacheError;
use crate::error::ErrorView;
use crate::keyed::entry_views;
use crate::keyed::find_name;
use crate::keyed::lookup;
use crate::keyed::position;
use crate::keyed::put;

verus! {

/// A scalar read from a column.
#[derive(Debug, PartialEq, Eq)]
pub enum Value {
    Null,
    Bool(bool),
    /// A signed integer.
    Int(i64),
    /// An unsigned integer.
    UInt(u64),
    /// A finite double, by its IEEE-754 bits.
    Float(u64),
    Text(String),
}

/// What a [`Value`] stands for: integers are integers, whichever variant
/// carried them.
pub enum ValueView {
    Null,
    Bool(bool),
    Integer(int),
    Float(u64),
    Text(Seq<char>),
}

impl View for Value {
    type V = ValueView;

    open spec fn view(&self) -> ValueView {
        match *self {
            Value::Null => ValueView::Null,
            Value::Bool(b) => ValueView::Bool(b),
            Value::Int(i) => ValueView::Integer(i as int),
            Value::UInt(u) => ValueView::Integer(u as int),
            Value::Float(bits) => ValueView::Float(bits),
            Value::Text(s) => ValueView::Text(s@),
        }
    }
}

impl Value {
    /// A copy of the value.
    pub fn duplicate(&self) -> (r: Value)
        ensures
            r@ == self@,
    {
        match self {
            Value::Null => Value::Null,
            Value::Bool(b) => Value::Bool(*b),
            Value::Int(i) => Value::Int(*i),
            Value::UInt(u) => Value::UInt(*u),
            Value::Float(bits) => Value::Float(*bits),
            Value::Text(s) => Value::Text(s.clone()),
        }
    }
}

/// A row as a sequence of names with their values.
pub type RowView = Seq<(Seq<char>, ValueView)>;

/// A row: column names with their values, each name once, in the order in
/// which the names first came.
#[derive(Debug, PartialEq, Eq)]
pub struct Row {
    entries: Vec<(String, Value)>,
}

impl View for Row {
    type V = RowView;

    closed spec fn view(&self) -> RowView {
        entry_views(self.entries@)
    }
}

impl Row {
    /// The empty row.
    pub fn new() -> (r: Row)
        ensures
            r@ == RowView::empty(),
    {
        let r = Row { entries: Vec::new() };
        assert(r@ =~= RowView::empty());
        r
    }

    /// The number of names.
    pub fn len(&self) -> (n: usize)
        ensures
            n == self@.len(),
    {
        self.entries.len()
    }

    /// The name at a position.
    pub fn name_at(&self, i: usize) -> (name: &String)
        requires
            i < self@.len(),
        ensures
            name@ == self@[i as int].0,
    {
        &self.entries[i].0
    }

    /// The value at a position.
    pub fn value_at(&self, i: usize) -> (value: &Value)
        requires
            i < self@.len(),
        ensures
            value@ == self@[i as int].1,
    {
        &self.entries[i].1
    }

    /// The value under a name, if the row holds the name.
    pub fn get(&self, name: &str) -> (r: Option<&Value>)
        ensures
            r is Some == lookup(self@, name@) is Some,
            r is Some ==> r->Some_0@ == lookup(self@, name@)->Some_0,
    {
        let at = find_name(&self.entries, name);
        if at < self.entries.len() {
            Some(&self.entries[at].1)
        } else {
            None
        }
    }

    /// Puts a value under a name, in place of the name's earlier value if it
    /// had one.
    pub fn insert(&mut self, name: String, value: Value)
        ensures
            final(self)@ == put(old(self)@, name@, value@),
    {
        let at = find_name(&self.entries, name.as_str());
        if at < self.entries.len() {
            self.entries.set(at, (name, value));
        } else {
            self.entries.push((name, value));
        }
        assert(self@ =~= put(old(self)@, name@, value@));
    }

    /// A copy of the row.
    pub fn duplicate(&self) -> (r: Row)
        ensures
            r@ == self@,
    {
        let mut entries: Vec<(String, Value)> = Vec::new();
        let mut i: usize = 0;
        while i < self.entries.len()
            invariant
                i <= self.entries@.len(),
                entries@.len() == i,
                forall|j: int|
                    0 <= j < i ==> entries@[j].0@ == self.entries@[j].0@ && entries@[j].1@
                        == self.entries@[j].1@,
            decreases self.entries@.len() - i,
        {
            entries.push((self.entries[i].0.clone(), self.entries[i].1.duplicate()));
            i = i + 1;
        }
        let r = Row { entries };
        assert(r@ =~= self@);
        r
    }
}

/// The rows, each as a sequence of names and values.
pub open spec fn row_views(rows: Seq<Row>) -> Seq<RowView> {
    Seq::new(rows.len(), |i: int| rows[i]@)
}

/// The bridge between rows and the caller's row type.
///
/// `decode` builds a value of the type from a row and says why where the row
/// does not fit; `encode` gives the row of a value. The library promises
/// nothing of either: it states which row it hands to `decode`, and what it
/// does with each outcome.
pub trait RowCodec: Sized {
    /// A value of the type for a row, or the cause for which the row does
    /// not fit.
    fn decode(row: &Row) -> Result<Self, String>;

    /// The row of a value.
    fn encode(&self) -> Row;
}

/// A row is its own row type.
impl RowCodec for Row {
    fn decode(row: &Row) -> (r: Result<Row, String>)
        ensures
            r is Ok,
            r->Ok_0@ == row@,
    {
        Ok(row.duplicate())
    }

    fn encode(&self) -> (r: Row)
        ensures
            r@ == self@,
    {
        self.duplicate()
    }
}

/// The unit type holds no row: every row fails to decode into it.
impl RowCodec for () {
    fn decode(row: &Row) -> (r: Result<(), String>)
        ensures
            r is Err,
            r->Err_0@ == "the unit type holds no row"@,
    {
        Err("the unit type holds no row".to_string())
    }

    fn encode(&self) -> (r: Row)
        ensures
            r@ == RowView::empty(),
    {
        Row::new()
    }
}

/// What becomes of one decoded row: a value joins the results, a cause
/// becomes the failure of the row at `row_index`.
pub open spec fn admitted<V>(
    results: Seq<V>,
    row_index: usize,
    outcome: Result<V, String>,
) -> Result<Seq<V>, ErrorView> {
    match outcome {
        Ok(value) => Ok(results.push(value)),
        Err(cause) => Err(ErrorView::RowDecode { row_index, cause: cause@ }),
    }
}

/// Takes the outcome of decoding the row at `row_index`: a decoded value is
/// appended to `results`; a cause is returned as the row's failure, and
/// `results` stays as it was.
pub fn admit_row<V>(results: &mut Vec<V>, row_index: usize, outcome: Result<V, String>) -> (r:
    Result<(), CacheError>)
    ensures
        match admitted(old(results)@, row_index, outcome) {
            Ok(all) => r is Ok && final(results)@ == all,
            Err(e) => r is Err && r->Err_0@ == e && final(results)@ == old(results)@,
        },
{
    match outcome {
        Ok(value) => {
            results.push(value);
            Ok(())
        },
        Err(cause) => Err(CacheError::RowDecode { row_index, cause }),
    }
}

/// Whether `outcome` is an answer of the row type `V` to `row`.
pub open spec fn decodes_to<V: RowCodec>(row: Row, outcome: Result<V, String>) -> bool {
    call_ensures(V::decode, (&row,), outcome)
}

/// Whether `row` is an answer of the row type `V` to `value`.
pub open spec fn encodes_to<V: RowCodec>(value: V, row: Row) -> bool {
    call_ensures(V::encode, (&value,), row)
}

/// Whether `cause` is the row type's reason not to decode `row`.
pub open spec fn refuses<V: RowCodec>(row: Row, cause: Seq<char>) -> bool {
    exists|text: String| text@ == cause && decodes_to::<V>(row, Err::<V, String>(text))
}

/// Whether the values are the row type's answers to the rows, one for each,
/// in order.
pub open spec fn all_decoded<V: RowCodec>(rows: Seq<Row>, values: Seq<V>) -> bool {
    &&& values.len() == rows.len()
    &&& forall|i: int|
        0 <= i < rows.len() ==> decodes_to::<V>(#[trigger] rows[i], Ok::<V, String>(values[i]))
}

/// Whether a result is what decoding the rows in order comes to: all values
/// if every row decodes; else the failure of the first row that does not,
/// with its index and the row type's cause.
pub open spec fn decoded<V: RowCodec>(rows: Seq<Row>, r: Result<Vec<V>, CacheError>) -> bool {
    match r {
        Ok(values) => all_decoded(rows, values@),
        Err(e) => {
            &&& e@ matches ErrorView::RowDecode { row_index, cause }
            &&& row_index < rows.len()
            &&& refuses::<V>(rows[row_index as int], cause)
            &&& exists|earlier: Seq<V>| all_decoded(rows.take(row_index as int), earlier)
        },
    }
}

/// Decodes the rows in order, up to the first that does not decode.
///
/// What a row decodes to is the row type's matter. Whatever it answers: if
/// every row decodes, the values are the row type's answers to the rows, one
/// for each, in order; else the failure holds the index of the first row
/// that does not decode and the cause that the row type gave for it.
pub fn decode_rows<V: RowCodec>(rows: &Vec<Row>) -> (r: Result<Vec<V>, CacheError>)
    ensures
        decoded(rows@, r),
{
    let mut values: Vec<V> = Vec::new();
    let mut i: usize = 0;
    while i < rows.len()
        invariant
            i <= rows@.len(),
            all_decoded(rows@.take(i as int), values@),
        decreases rows@.len() - i,
    {
        let outcome = V::decode(&rows[i]);
        assert(decodes_to::<V>(rows@[i as int], outcome));
        let ghost earlier = values@;
        match admit_row(&mut values, i, outcome) {
            Ok(()) => {
                assert(all_decoded(rows@.take(i + 1), values@)) by {
                    assert forall|k: int| 0 <= k < i + 1 implies decodes_to::<V>(
                        #[trigger] rows@.take(i + 1)[k],
                        Ok::<V, String>(values@[k]),
                    ) by {
                        if k < i {
                            assert(rows@.take(i as int)[k] == rows@[k]);
                        }
                    }
                }
            },
            Err(e) => {
                assert(refuses::<V>(rows@[i as int], outcome->Err_0@));
                return Err(e);
            },
        }
        i = i + 1;
    }
    assert(rows@.take(i as int) =~= rows@);
    Ok(values)
}

/// With rows as their own row type, decoding gives the rows back: the
/// result is no failure, and its rows are the rows that were decoded.
pub proof fn rows_decode_to_themselves(rows: Seq<Row>, r: Result<Vec<Row>, CacheError>)
    requires
        decoded::<Row>(rows, r),
    ensures
        r is Ok,
        row_views(r->Ok_0@) == row_views(rows),
{
    assert(r is Ok);
    let values = r->Ok_0@;
    assert forall|i: int| 0 <= i < rows.len() implies values[i]@ == rows[i]@ by {
        assert(decodes_to::<Row>(rows[i], Ok::<Row, String>(values[i])));
    }
    assert(row_views(values) =~= row_views(rows));
}

/// With the unit type as row type, decoding fails as soon as there is a
/// row: on the first one.
pub proof fn unit_decodes_no_row(rows: Seq<Row>, r: Result<Vec<()>, CacheError>)
    requires
        decoded::<()>(rows, r),
        rows.len() > 0,
    ensures
        r matches Err(e) && e@ == (ErrorView::RowDecode {
            row_index: 0,
            cause: "the unit type holds no row"@,
        }),
{
    if r is Ok {
        assert(decodes_to::<()>(rows[0], Ok::<(), String>(r->Ok_0@[0])));
    } else {
        let at = r->Err_0@->RowDecode_row_index;
        if at > 0 {
            let earlier = choose|earlier: Seq<()>|
                all_decoded(rows.take(at as int), earlier);
            assert(decodes_to::<()>(rows.take(at as int)[0], Ok::<(), String>(earlier[0])));
        }
    }
}

} // verus!
