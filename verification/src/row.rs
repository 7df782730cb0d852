//! Rows with their schemas, and the requests that insert them.
use crate::model::{view_option, views};
use crate::number::{FieldValue, FieldValueView};
use vstd::prelude::*;

verus! {

/// The role that a column plays in its table.
#[derive(Clone, Copy, Debug, PartialEq, Eq)]
pub enum SemanticType {
    Tag,
    Field,
    Timestamp,
}

/// The type of the values in a column.
#[derive(Clone, Copy, Debug, PartialEq, Eq)]
pub enum ColumnDataType {
    Float64,
    String,
    TimestampMillisecond,
}

/// The schema of a column.
#[derive(Clone, Debug, PartialEq, Eq)]
pub struct ColumnSchema {
    pub column_name: String,
    pub semantic_type: SemanticType,
    pub datatype: ColumnDataType,
}

/// The model of a [`ColumnSchema`].
pub struct ColumnSchemaView {
    pub column_name: Seq<char>,
    pub semantic_type: SemanticType,
    pub datatype: ColumnDataType,
}

impl View for ColumnSchema {
    type V = ColumnSchemaView;

    open spec fn view(&self) -> ColumnSchemaView {
        ColumnSchemaView {
            column_name: self.column_name@,
            semantic_type: self.semantic_type,
            datatype: self.datatype,
        }
    }
}

/// The data of a value.
#[derive(Clone, Debug, PartialEq, Eq)]
pub enum ValueData {
    F64Value(FieldValue),
    StringValue(String),
    TimestampMillisecondValue(i64),
}

/// The model of a [`ValueData`].
pub enum ValueDataView {
    F64Value(FieldValueView),
    StringValue(Seq<char>),
    TimestampMillisecondValue(int),
}

impl View for ValueData {
    type V = ValueDataView;

    open spec fn view(&self) -> ValueDataView {
        match *self {
            ValueData::F64Value(value) => ValueDataView::F64Value(value@),
            ValueData::StringValue(value) => ValueDataView::StringValue(value@),
            ValueData::TimestampMillisecondValue(millis) => {
                ValueDataView::TimestampMillisecondValue(millis as int)
            },
        }
    }
}

/// A value in a row; `None` is a null.
#[derive(Clone, Debug, PartialEq, Eq)]
pub struct Value {
    pub value_data: Option<ValueData>,
}

impl View for Value {
    type V = Option<ValueDataView>;

    open spec fn view(&self) -> Option<ValueDataView> {
        view_option(self.value_data)
    }
}

/// A row: one value for each column.
#[derive(Clone, Debug, PartialEq, Eq)]
pub struct Row {
    pub values: Vec<Value>,
}

impl View for Row {
    type V = Seq<Option<ValueDataView>>;

    open spec fn view(&self) -> Seq<Option<ValueDataView>> {
        views(self.values@)
    }
}

/// Rows and the schema that they share.
#[derive(Clone, Debug, PartialEq, Eq)]
pub struct Rows {
    pub schema: Vec<ColumnSchema>,
    pub rows: Vec<Row>,
}

/// The model of [`Rows`].
pub struct RowsView {
    pub schema: Seq<ColumnSchemaView>,
    pub rows: Seq<Seq<Option<ValueDataView>>>,
}

impl View for Rows {
    type V = RowsView;

    open spec fn view(&self) -> RowsView {
        RowsView { schema: views(self.schema@), rows: views(self.rows@) }
    }
}

/// A request to insert rows into a table.
#[derive(Clone, Debug, PartialEq, Eq)]
pub struct RowInsertRequest {
    pub table_name: String,
    pub rows: Option<Rows>,
}

/// The model of a [`RowInsertRequest`].
pub struct RowInsertRequestView {
    pub table_name: Seq<char>,
    pub rows: Option<RowsView>,
}

impl View for RowInsertRequest {
    type V = RowInsertRequestView;

    open spec fn view(&self) -> RowInsertRequestView {
        RowInsertRequestView { table_name: self.table_name@, rows: view_option(self.rows) }
    }
}

/// A column of a one-row table: its schema with its value in that row.
pub struct Column {
    pub schema: ColumnSchemaView,
    pub value: Option<ValueDataView>,
}

/// The schemas of columns.
pub open spec fn schemas(columns: Seq<Column>) -> Seq<ColumnSchemaView> {
    columns.map_values(|column: Column| column.schema)
}

/// The values of columns.
pub open spec fn values(columns: Seq<Column>) -> Seq<Option<ValueDataView>> {
    columns.map_values(|column: Column| column.value)
}

/// The request that inserts one row with the given columns.
pub open spec fn one_row_request(table_name: Seq<char>, columns: Seq<Column>) -> RowInsertRequestView {
    RowInsertRequestView {
        table_name,
        rows: Some(RowsView { schema: schemas(columns), rows: seq![values(columns)] }),
    }
}

/// The schema of a field column.
pub open spec fn field_schema(name: Seq<char>) -> ColumnSchemaView {
    ColumnSchemaView {
        column_name: name,
        semantic_type: SemanticType::Field,
        datatype: ColumnDataType::Float64,
    }
}

/// The schema of a time index column.
pub open spec fn time_schema(name: Seq<char>) -> ColumnSchemaView {
    ColumnSchemaView {
        column_name: name,
        semantic_type: SemanticType::Timestamp,
        datatype: ColumnDataType::TimestampMillisecond,
    }
}

/// The schema of a tag column.
pub open spec fn tag_schema(name: Seq<char>) -> ColumnSchemaView {
    ColumnSchemaView {
        column_name: name,
        semantic_type: SemanticType::Tag,
        datatype: ColumnDataType::String,
    }
}

/// A field column.
pub open spec fn field_column(name: Seq<char>, value: FieldValueView) -> Column {
    Column { schema: field_schema(name), value: Some(ValueDataView::F64Value(value)) }
}

/// A time index column.
pub open spec fn time_column(name: Seq<char>, millis: int) -> Column {
    Column {
        schema: time_schema(name),
        value: Some(ValueDataView::TimestampMillisecondValue(millis)),
    }
}

/// A tag column.
pub open spec fn text_column(name: Seq<char>, value: Seq<char>) -> Column {
    Column { schema: tag_schema(name), value: Some(ValueDataView::StringValue(value)) }
}

/// What a schema and the values of a row have grown by: columns, appended in order.
pub open spec fn extends(
    schema: Seq<ColumnSchema>,
    row: Seq<Value>,
    new_schema: Seq<ColumnSchema>,
    new_row: Seq<Value>,
    added: Seq<Column>,
) -> bool {
    &&& views(new_schema) == views(schema) + schemas(added)
    &&& views(new_row) == views(row) + values(added)
}

/// Appending columns in two steps appends them all.
pub proof fn lemma_extends_twice(
    schema: Seq<ColumnSchema>,
    row: Seq<Value>,
    mid_schema: Seq<ColumnSchema>,
    mid_row: Seq<Value>,
    new_schema: Seq<ColumnSchema>,
    new_row: Seq<Value>,
    first: Seq<Column>,
    second: Seq<Column>,
)
    requires
        extends(schema, row, mid_schema, mid_row, first),
        extends(mid_schema, mid_row, new_schema, new_row, second),
    ensures
        extends(schema, row, new_schema, new_row, first + second),
{
    assert(schemas(first + second) =~= schemas(first) + schemas(second));
    assert(values(first + second) =~= values(first) + values(second));
    assert(views(new_schema) =~= views(schema) + schemas(first + second));
    assert(views(new_row) =~= views(row) + values(first + second));
}

/// Appending no columns changes nothing.
pub proof fn lemma_extends_by_nothing(
    schema: Seq<ColumnSchema>,
    row: Seq<Value>,
    added: Seq<Column>,
)
    requires
        added.len() == 0,
    ensures
        extends(schema, row, schema, row, added),
{
    assert(views(schema) =~= views(schema) + schemas(added));
    assert(views(row) =~= views(row) + values(added));
}

}
