//! The column type classifier: maps a column's declared data type and
//! generation metadata to a semantic input kind and a required flag.

use vstd::prelude::*;

use crate::column::Column;
use crate::error::ErrorKind;
use crate::project::{row_lookup, RowData};
use crate::table::Table;
use crate::text::str_eq;

verus! {

/// A step width in days.
#[derive(Clone, Copy, Debug, PartialEq, Eq, Structural)]
pub struct Days(pub usize);

/// A step width in seconds.
#[derive(Clone, Copy, Debug, PartialEq, Eq, Structural)]
pub struct Seconds(pub usize);

/// A calendar date as plain values.
#[derive(Clone, Copy, Debug, PartialEq, Eq, Structural)]
pub struct DateValue {
    pub year: i32,
    pub month: u8,
    pub day: u8,
}

/// A calendar date and a time of day as plain values.
#[derive(Clone, Copy, Debug, PartialEq, Eq, Structural)]
pub struct DateTimeValue {
    pub date: DateValue,
    pub hour: u8,
    pub minute: u8,
    pub second: u8,
}

/// Validation envelope of a date input. All parts default to unset;
/// they are open for future constraint-derived population.
#[derive(Clone, Copy, Debug, PartialEq, Eq, Structural)]
pub struct DateAttributes {
    pub min: Option<DateValue>,
    pub max: Option<DateValue>,
    pub step: Option<Days>,
}

/// Validation envelope of a date-time input.
#[derive(Clone, Copy, Debug, PartialEq, Eq, Structural)]
pub struct DateTimeAttributes {
    pub min: Option<DateTimeValue>,
    pub max: Option<DateTimeValue>,
    pub step: Option<Seconds>,
}

/// Validation envelope of a numeric input.
#[derive(Clone, Copy, Debug, PartialEq, Eq, Structural)]
pub struct NumberInputAttributes {
    pub min: Option<i64>,
    pub max: Option<i64>,
    pub step: Option<i64>,
}

/// Validation envelope of a single-line text input.
#[derive(Debug, PartialEq)]
pub struct TextInputAttributes {
    pub minlength: Option<i64>,
    pub maxlength: Option<i64>,
    pub placeholder: Option<String>,
}

/// Validation envelope of a multi-line text input.
#[derive(Clone, Copy, Debug, PartialEq, Eq, Structural)]
pub struct TextAreaAttributes {
    pub minlength: Option<i64>,
    pub maxlength: Option<i64>,
    pub rows: Option<i64>,
}

impl Default for DateAttributes {
    fn default() -> (r: Self)
        ensures
            r == (DateAttributes { min: None, max: None, step: None }),
    {
        DateAttributes { min: None, max: None, step: None }
    }
}

impl Default for DateTimeAttributes {
    fn default() -> (r: Self)
        ensures
            r == (DateTimeAttributes { min: None, max: None, step: None }),
    {
        DateTimeAttributes { min: None, max: None, step: None }
    }
}

impl Default for NumberInputAttributes {
    fn default() -> (r: Self)
        ensures
            r == (NumberInputAttributes { min: None, max: None, step: None }),
    {
        NumberInputAttributes { min: None, max: None, step: None }
    }
}

impl Default for TextInputAttributes {
    fn default() -> (r: Self)
        ensures
            r == (TextInputAttributes { minlength: None, maxlength: None, placeholder: None }),
    {
        TextInputAttributes { minlength: None, maxlength: None, placeholder: None }
    }
}

impl Default for TextAreaAttributes {
    fn default() -> (r: Self)
        ensures
            r == (TextAreaAttributes { minlength: None, maxlength: None, rows: None }),
    {
        TextAreaAttributes { minlength: None, maxlength: None, rows: None }
    }
}

/// The semantic input kind of a column, with the validation envelope
/// the kind carries.
#[derive(Debug, PartialEq)]
pub enum InputType {
    Boolean,
    Date(DateAttributes),
    DateTime(DateTimeAttributes),
    Number(NumberInputAttributes),
    Text(TextInputAttributes),
    TextArea(TextAreaAttributes),
}

/// The input kind a declared data type maps to, with all attributes
/// unset. The mapping is total: `bool`, `date`, the narrow and wide
/// integer types, unbounded `text` and `timestamptz` map to their kinds,
/// and every other type falls back to a single-line text input, so no
/// declared type can ever fail classification.
pub open spec fn spec_input_type(t: Seq<char>) -> InputType {
    if t == "bool"@ {
        InputType::Boolean
    } else if t == "date"@ {
        InputType::Date(DateAttributes { min: None, max: None, step: None })
    } else if t == "int4"@ || t == "int8"@ {
        InputType::Number(NumberInputAttributes { min: None, max: None, step: None })
    } else if t == "text"@ {
        InputType::TextArea(TextAreaAttributes { minlength: None, maxlength: None, rows: None })
    } else if t == "timestamptz"@ {
        InputType::DateTime(DateTimeAttributes { min: None, max: None, step: None })
    } else {
        InputType::Text(TextInputAttributes { minlength: None, maxlength: None, placeholder: None })
    }
}

/// The catch-all direction of the mapping's totality: any declared type
/// outside the recognized set classifies as a single-line text input,
/// never as an error.
pub proof fn lemma_unrecognized_type_is_text(t: Seq<char>)
    requires
        t != "bool"@,
        t != "date"@,
        t != "int4"@,
        t != "int8"@,
        t != "text"@,
        t != "timestamptz"@,
    ensures
        spec_input_type(t) is Text,
{
}

/// What a column asks of its input: the kind of widget and whether a
/// value is mandatory.
#[derive(Debug, PartialEq)]
pub struct Classification {
    pub input_type: InputType,
    pub required: bool,
}

/// Classifies one column. The kind is a function of the declared data
/// type alone, so classification is deterministic; the required flag
/// holds iff the column rejects NULL, has no generation expression, and
/// is not a checkbox (an unchecked checkbox is a valid false, not an
/// absence).
pub fn classify(column: &Column) -> (c: Classification)
    ensures
        c.input_type == spec_input_type(column.data_type@),
        c.required == (column.spec_required() && !(spec_input_type(column.data_type@) is Boolean)),
{
    let t = column.data_type.as_str();
    let input_type = if str_eq(t, "bool") {
        InputType::Boolean
    } else if str_eq(t, "date") {
        InputType::Date(DateAttributes::default())
    } else if str_eq(t, "int4") || str_eq(t, "int8") {
        InputType::Number(NumberInputAttributes::default())
    } else if str_eq(t, "text") {
        InputType::TextArea(TextAreaAttributes::default())
    } else if str_eq(t, "timestamptz") {
        InputType::DateTime(DateTimeAttributes::default())
    } else {
        InputType::Text(TextInputAttributes::default())
    };
    let is_boolean = match input_type {
        InputType::Boolean => true,
        _ => false,
    };
    let required = column.required() && !is_boolean;
    Classification { input_type, required }
}

/// One input field of a form: the column it belongs to, its input
/// classification, and the value to prefill, if any.
#[derive(Debug)]
pub struct Field {
    pub column: Column,
    pub input_type: InputType,
    pub value: Option<String>,
}

impl Field {
    /// Builds the field of one column, with no prefilled value.
    pub fn from_column(column: &Column) -> (r: Field)
        ensures
            r.column == *column,
            r.input_type == spec_input_type(column.data_type@),
            r.value is None,
    {
        let c = classify(column);
        Field { column: column.clone(), input_type: c.input_type, value: None }
    }

    /// Prefills the field with a value.
    pub fn set_value(&mut self, val: String)
        ensures
            final(self).column == old(self).column,
            final(self).input_type == old(self).input_type,
            final(self).value == Some(val),
    {
        self.value = Some(val);
    }
}

/// The columns open to user input: those not always generated, in
/// ordinal order.
pub open spec fn editable_columns(columns: Seq<Column>) -> Seq<Column>
    decreases columns.len(),
{
    if columns.len() == 0 {
        Seq::empty()
    } else {
        let rest = editable_columns(columns.drop_last());
        if columns.last().spec_always_generated() {
            rest
        } else {
            rest.push(columns.last())
        }
    }
}

/// Whether a field's prefill agrees with the row: no value without a
/// row, the row's text value for the field's column with one.
pub open spec fn prefill_ok(value: Option<String>, row: Option<&RowData>, name: Seq<char>) -> bool {
    match row {
        None => value is None,
        Some(r) => value is Some && Some(value->0@) == row_lookup(r.values@, name),
    }
}

/// Builds the input fields of a form over `table`: one field per column
/// that is not always generated, in ordinal order, each prefilled from
/// `row` when one is given. A row that lacks a value for some editable
/// column is a `NotFound`: it does not fit the table.
pub fn form_fields(table: &Table, row: Option<&RowData>) -> (r: Result<Vec<Field>, ErrorKind>)
    ensures
        r is Err ==> r->Err_0 == ErrorKind::NotFound,
        r is Ok <==> (row is None || forall|i: int|
            0 <= i < table.columns@.len() && !(#[trigger] table.columns@[i]).spec_always_generated()
                ==> row_lookup(row->0.values@, table.columns@[i].name@) is Some),
        r is Ok ==> ({
            let fields = r->Ok_0@;
            let kept = editable_columns(table.columns@);
            &&& fields.len() == kept.len()
            &&& forall|k: int|
                0 <= k < fields.len() ==> ({
                    let f = #[trigger] fields[k];
                    &&& f.column == kept[k]
                    &&& f.input_type == spec_input_type(kept[k].data_type@)
                    &&& prefill_ok(f.value, row, kept[k].name@)
                })
        }),
{
    let mut fields: Vec<Field> = Vec::new();
    let mut c: usize = 0;
    while c < table.columns.len()
        invariant
            c <= table.columns@.len(),
            fields@.len() == editable_columns(table.columns@.take(c as int)).len(),
            forall|k: int|
                0 <= k < fields@.len() ==> ({
                    let f = #[trigger] fields@[k];
                    let kept = editable_columns(table.columns@.take(c as int));
                    &&& f.column == kept[k]
                    &&& f.input_type == spec_input_type(kept[k].data_type@)
                    &&& prefill_ok(f.value, row, kept[k].name@)
                }),
            forall|k: int|
                0 <= k < c && !(#[trigger] table.columns@[k]).spec_always_generated() && row is Some
                    ==> row_lookup(row->0.values@, table.columns@[k].name@) is Some,
        decreases table.columns@.len() - c,
    {
        proof {
            assert(table.columns@.take(c as int + 1).drop_last() =~= table.columns@.take(c as int));
            assert(table.columns@.take(c as int + 1).last() == table.columns@[c as int]);
        }
        let column = &table.columns[c];
        if !column.always_generated() {
            let mut field = Field::from_column(column);
            match row {
                None => {},
                Some(r) => {
                    match r.get(column.name.as_str()) {
                        None => {
                            return Err(ErrorKind::NotFound);
                        },
                        Some(value) => {
                            field.set_value(value.clone());
                        },
                    }
                },
            }
            fields.push(field);
        }
        c += 1;
    }
    proof {
        assert(table.columns@.take(table.columns@.len() as int) =~= table.columns@);
    }
    Ok(fields)
}

} // verus!
