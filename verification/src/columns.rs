//! Column types and the signatures of the SQL functions.
use vstd::prelude::*;

verus! {

/// The type of a column of values.
#[derive(Clone, Copy, Debug, PartialEq, Eq, Structural)]
pub enum ColumnType {
    Int32,
    Int64,
    Float64,
    Boolean,
    Utf8,
    Binary,
}

/// The argument types of a scalar function and the type of its result.
pub struct Signature {
    pub arguments: Vec<ColumnType>,
    pub result: ColumnType,
}

/// A column of a table function's result.
pub struct Column {
    pub name: String,
    pub kind: ColumnType,
}

/// Whether a function has one signature, with these argument types and this result type.
pub open spec fn only_signature(
    signatures: Seq<Signature>,
    arguments: Seq<ColumnType>,
    result: ColumnType,
) -> bool {
    &&& signatures.len() == 1
    &&& signatures[0].arguments@ =~= arguments
    &&& signatures[0].result == result
}

/// The names of some columns.
pub open spec fn column_names(columns: Seq<Column>) -> Seq<Seq<char>> {
    columns.map_values(|c: Column| c.name@)
}

/// The types of some columns.
pub open spec fn column_types(columns: Seq<Column>) -> Seq<ColumnType> {
    columns.map_values(|c: Column| c.kind)
}

/// One signature.
pub(crate) fn exact(arguments: Vec<ColumnType>, result: ColumnType) -> (signatures: Vec<Signature>)
    ensures
        only_signature(signatures@, arguments@, result),
{
    vec![Signature { arguments, result }]
}

/// A column of a result.
pub(crate) fn column(name: &str, kind: ColumnType) -> (c: Column)
    ensures
        c.name@ == name@,
        c.kind == kind,
{
    Column { name: name.to_owned(), kind }
}

/// What a function with one signature has: no other signature, these argument types in this order,
/// and this result type.
pub proof fn law_only_signature(
    signatures: Seq<Signature>,
    arguments: Seq<ColumnType>,
    result: ColumnType,
    i: int,
)
    requires
        only_signature(signatures, arguments, result),
    ensures
        signatures.len() == 1,
        signatures[0].arguments@.len() == arguments.len(),
        0 <= i < arguments.len() ==> signatures[0].arguments@[i] == arguments[i],
        signatures[0].result == result,
{
}

/// The names and the types of columns, column by column.
pub proof fn law_columns(columns: Seq<Column>, i: int)
    ensures
        column_names(columns).len() == columns.len(),
        column_types(columns).len() == columns.len(),
        0 <= i < columns.len() ==> column_names(columns)[i] == columns[i].name@,
        0 <= i < columns.len() ==> column_types(columns)[i] == columns[i].kind,
{
}

} // verus!
