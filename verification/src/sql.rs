//! Values of database result rows and their conversion to the library's
//! types, with the errors that rusqlite reports for them.
//!
//! A row is held as plain values: the name and the value of each result
//! column. Looking a column up by name and converting its value follow
//! rusqlite's `Row::get`: the first column whose name equals the requested
//! one up to ASCII case is read, and a failed conversion is reported with the
//! column's index.
use vstd::prelude::*;
use vstd::utf8::{decode_utf8, valid_utf8};
use crate::text::{chars_of, eq_ignore_ascii_case, same_text_ignoring_ascii_case};

verus! {

/// A value of a result column.
#[derive(Debug, Clone, PartialEq)]
pub enum SqlValue {
    Null,
    Integer(i64),
    /// A floating-point value; its number is not read by this library.
    Real,
    Text(Vec<u8>),
    Blob(Vec<u8>),
}

/// The storage class of a value.
#[derive(Debug, Clone, Copy, PartialEq, Eq, Structural)]
pub enum SqlType {
    Null,
    Integer,
    Real,
    Text,
    Blob,
}

pub open spec fn type_of(v: SqlValue) -> SqlType {
    match v {
        SqlValue::Null => SqlType::Null,
        SqlValue::Integer(_) => SqlType::Integer,
        SqlValue::Real => SqlType::Real,
        SqlValue::Text(_) => SqlType::Text,
        SqlValue::Blob(_) => SqlType::Blob,
    }
}

impl SqlValue {
    /// The storage class of this value.
    pub fn data_type(&self) -> (r: SqlType)
        ensures
            r == type_of(*self),
    {
        match self {
            SqlValue::Null => SqlType::Null,
            SqlValue::Integer(_) => SqlType::Integer,
            SqlValue::Real => SqlType::Real,
            SqlValue::Text(_) => SqlType::Text,
            SqlValue::Blob(_) => SqlType::Blob,
        }
    }
}

/// One column of a result row: its name and its value.
#[derive(Debug, Clone, PartialEq)]
pub struct SqlColumn {
    pub name: String,
    pub value: SqlValue,
}

/// A result row.
#[derive(Debug, Clone, PartialEq)]
pub struct SqlRow {
    pub columns: Vec<SqlColumn>,
}

/// Why a value could not be converted.
#[derive(Debug, Clone, Copy, PartialEq, Eq, Structural)]
pub enum FromSqlError {
    /// The value has the wrong storage class, or text that names nothing.
    InvalidType,
    /// The integer does not fit.
    OutOfRange(i64),
    /// The text is not UTF-8.
    InvalidUtf8,
}

/// Why reading a column of a row failed.
#[derive(Debug, Clone, PartialEq)]
pub enum SqlError {
    /// No column has this name.
    InvalidColumnName(String),
    /// The value at this index, in the column of this name, has the wrong
    /// storage class.
    InvalidColumnType(usize, String, SqlType),
    /// The integer at this index does not fit.
    IntegralValueOutOfRange(usize, i64),
    /// The value at this index, of this storage class, could not be decoded.
    FromSqlConversionFailure(usize, SqlType),
}

/// What a `SqlError` holds, as mathematical values.
pub enum SqlErrorView {
    InvalidColumnName(Seq<char>),
    InvalidColumnType(usize, Seq<char>, SqlType),
    IntegralValueOutOfRange(usize, i64),
    FromSqlConversionFailure(usize, SqlType),
}

impl View for SqlError {
    type V = SqlErrorView;

    open spec fn view(&self) -> SqlErrorView {
        match self {
            SqlError::InvalidColumnName(n) => SqlErrorView::InvalidColumnName(n@),
            SqlError::InvalidColumnType(i, n, t) => SqlErrorView::InvalidColumnType(*i, n@, *t),
            SqlError::IntegralValueOutOfRange(i, v) => SqlErrorView::IntegralValueOutOfRange(*i, *v),
            SqlError::FromSqlConversionFailure(i, t) => SqlErrorView::FromSqlConversionFailure(
                *i,
                *t,
            ),
        }
    }
}

/// The index of the first column, at `from` or after, whose name equals
/// `name` up to ASCII case.
pub open spec fn first_column(cols: Seq<SqlColumn>, name: Seq<char>, from: int) -> Option<int>
    decreases cols.len() - from,
{
    if from < 0 || from >= cols.len() {
        None
    } else if eq_ignore_ascii_case(cols[from].name@, name) {
        Some(from)
    } else {
        first_column(cols, name, from + 1)
    }
}

proof fn lemma_first_column(cols: Seq<SqlColumn>, name: Seq<char>, from: int)
    ensures
        first_column(cols, name, from) matches Some(i) ==> from <= i < cols.len()
            && eq_ignore_ascii_case(cols[i].name@, name),
    decreases cols.len() - from,
{
    if 0 <= from < cols.len() && !eq_ignore_ascii_case(cols[from].name@, name) {
        lemma_first_column(cols, name, from + 1);
    }
}

/// The error that reading the column at `idx` reports for a failed conversion.
pub open spec fn conversion_error(cols: Seq<SqlColumn>, idx: int, e: FromSqlError) -> SqlErrorView {
    match e {
        FromSqlError::InvalidType => SqlErrorView::InvalidColumnType(
            idx as usize,
            cols[idx].name@,
            type_of(cols[idx].value),
        ),
        FromSqlError::OutOfRange(i) => SqlErrorView::IntegralValueOutOfRange(idx as usize, i),
        FromSqlError::InvalidUtf8 => SqlErrorView::FromSqlConversionFailure(
            idx as usize,
            type_of(cols[idx].value),
        ),
    }
}

/// Reading the column `name` of `row` with the conversion `conv`.
pub open spec fn read_column<T>(
    row: SqlRow,
    name: Seq<char>,
    conv: spec_fn(SqlValue) -> Result<T, FromSqlError>,
) -> Result<T, SqlErrorView> {
    let cols = row.columns@;
    match first_column(cols, name, 0) {
        None => Err(SqlErrorView::InvalidColumnName(name)),
        Some(i) => match conv(cols[i].value) {
            Ok(x) => Ok(x),
            Err(e) => Err(conversion_error(cols, i, e)),
        },
    }
}

/// Text: UTF-8 text values only.
pub open spec fn text_value(v: SqlValue) -> Result<Seq<char>, FromSqlError> {
    match v {
        SqlValue::Text(b) => if valid_utf8(b@) {
            Ok(decode_utf8(b@))
        } else {
            Err(FromSqlError::InvalidUtf8)
        },
        _ => Err(FromSqlError::InvalidType),
    }
}

/// A non-zero unsigned integer: integer values above zero.
pub open spec fn nonzero_value(v: SqlValue) -> Result<u64, FromSqlError> {
    match v {
        SqlValue::Integer(i) => if i < 0 {
            Err(FromSqlError::OutOfRange(i))
        } else if i == 0 {
            Err(FromSqlError::OutOfRange(0))
        } else {
            Ok(i as u64)
        },
        _ => Err(FromSqlError::InvalidType),
    }
}

/// An optional identifier: null, or an integer taken as unsigned.
pub open spec fn optional_id_value(v: SqlValue) -> Result<Option<u64>, FromSqlError> {
    match v {
        SqlValue::Null => Ok(None),
        SqlValue::Integer(i) => Ok(Some(i as u64)),
        _ => Err(FromSqlError::InvalidType),
    }
}

/// Reading an identifier panics on the integer zero.
pub open spec fn zero_id_value(v: SqlValue) -> bool {
    match v {
        SqlValue::Integer(i) => i == 0,
        _ => false,
    }
}

/// The column `name` of `row` holds the integer zero.
pub open spec fn zero_id_column(row: SqlRow, name: Seq<char>) -> bool {
    match first_column(row.columns@, name, 0) {
        Some(i) => zero_id_value(row.columns@[i].value),
        None => false,
    }
}

/// `std::str::from_utf8`, with the text copied into a `String`.
/// Claimed, as std documents it: the bytes are accepted exactly when they are
/// valid UTF-8, and then the text is what they encode.
#[verifier::external_body]
fn utf8_to_string(bytes: &[u8]) -> (r: Option<String>)
    ensures
        r is Some <==> valid_utf8(bytes@),
        r matches Some(s) ==> s@ == decode_utf8(bytes@),
{
    std::str::from_utf8(bytes).ok().map(String::from)
}

/// The text of a value.
pub fn as_text(v: &SqlValue) -> (r: Result<String, FromSqlError>)
    ensures
        match r {
            Ok(s) => text_value(*v) == Ok::<Seq<char>, FromSqlError>(s@),
            Err(e) => text_value(*v) == Err::<Seq<char>, FromSqlError>(e),
        },
{
    match v {
        SqlValue::Text(b) => match utf8_to_string(b.as_slice()) {
            Some(s) => Ok(s),
            None => Err(FromSqlError::InvalidUtf8),
        },
        _ => Err(FromSqlError::InvalidType),
    }
}

/// The non-zero unsigned integer of a value.
pub fn as_nonzero(v: &SqlValue) -> (r: Result<u64, FromSqlError>)
    ensures
        r == nonzero_value(*v),
{
    match v {
        SqlValue::Integer(i) => if *i < 0 {
            Err(FromSqlError::OutOfRange(*i))
        } else if *i == 0 {
            Err(FromSqlError::OutOfRange(0))
        } else {
            Ok(*i as u64)
        },
        _ => Err(FromSqlError::InvalidType),
    }
}

/// The optional identifier of a value.
pub fn as_optional_id(v: &SqlValue) -> (r: Result<Option<u64>, FromSqlError>)
    requires
        !zero_id_value(*v),
    ensures
        r == optional_id_value(*v),
        r matches Ok(Some(n)) ==> n != 0,
{
    match v {
        SqlValue::Null => Ok(None),
        SqlValue::Integer(i) => {
            proof {
                assert(*i as u64 != 0) by (bit_vector)
                    requires
                        *i != 0,
                ;
            }
            Ok(Some(*i as u64))
        },
        _ => Err(FromSqlError::InvalidType),
    }
}

impl SqlRow {
    /// The index of the first column named `name`, up to ASCII case.
    pub fn column_index(&self, name: &str) -> (r: Result<usize, SqlError>)
        ensures
            match r {
                Ok(i) => first_column(self.columns@, name@, 0) == Some(i as int) && i
                    < self.columns.len(),
                Err(e) => first_column(self.columns@, name@, 0) is None && e@
                    == SqlErrorView::InvalidColumnName(name@),
            },
    {
        let wanted = chars_of(name);
        let mut i: usize = 0;
        while i < self.columns.len()
            invariant
                i <= self.columns.len(),
                wanted@ == name@,
                first_column(self.columns@, name@, 0) == first_column(
                    self.columns@,
                    name@,
                    i as int,
                ),
            decreases self.columns.len() - i,
        {
            let have = chars_of(self.columns[i].name.as_str());
            if same_text_ignoring_ascii_case(&have, &wanted) {
                proof {
                    lemma_first_column(self.columns@, name@, 0);
                }
                return Ok(i);
            }
            i = i + 1;
        }
        let mut n = String::new();
        n.append(name);
        Err(SqlError::InvalidColumnName(n))
    }

    /// The error reported for a failed conversion of the column at `idx`.
    pub(crate) fn conversion_failure(&self, idx: usize, e: FromSqlError) -> (r: SqlError)
        requires
            idx < self.columns.len(),
        ensures
            r@ == conversion_error(self.columns@, idx as int, e),
    {
        match e {
            FromSqlError::InvalidType => SqlError::InvalidColumnType(
                idx,
                self.columns[idx].name.clone(),
                self.columns[idx].value.data_type(),
            ),
            FromSqlError::OutOfRange(i) => SqlError::IntegralValueOutOfRange(idx, i),
            FromSqlError::InvalidUtf8 => SqlError::FromSqlConversionFailure(
                idx,
                self.columns[idx].value.data_type(),
            ),
        }
    }

    /// The text in the column `name`.
    pub fn get_text(&self, name: &str) -> (r: Result<String, SqlError>)
        ensures
            match r {
                Ok(s) => read_column(*self, name@, |v: SqlValue| text_value(v)) == Ok::<
                    Seq<char>,
                    SqlErrorView,
                >(s@),
                Err(e) => read_column(*self, name@, |v: SqlValue| text_value(v)) == Err::<
                    Seq<char>,
                    SqlErrorView,
                >(e@),
            },
    {
        let idx = self.column_index(name)?;
        match as_text(&self.columns[idx].value) {
            Ok(s) => Ok(s),
            Err(e) => Err(self.conversion_failure(idx, e)),
        }
    }

    /// The non-zero unsigned integer in the column `name`.
    pub fn get_nonzero(&self, name: &str) -> (r: Result<u64, SqlError>)
        ensures
            match r {
                Ok(n) => read_column(*self, name@, |v: SqlValue| nonzero_value(v)) == Ok::<
                    u64,
                    SqlErrorView,
                >(n) && n != 0,
                Err(e) => read_column(*self, name@, |v: SqlValue| nonzero_value(v)) == Err::<
                    u64,
                    SqlErrorView,
                >(e@),
            },
    {
        let idx = self.column_index(name)?;
        match as_nonzero(&self.columns[idx].value) {
            Ok(n) => Ok(n),
            Err(e) => Err(self.conversion_failure(idx, e)),
        }
    }

    /// The optional identifier in the column `name`.
    pub fn get_optional_id(&self, name: &str) -> (r: Result<Option<u64>, SqlError>)
        requires
            !zero_id_column(*self, name@),
        ensures
            match r {
                Ok(n) => read_column(*self, name@, |v: SqlValue| optional_id_value(v)) == Ok::<
                    Option<u64>,
                    SqlErrorView,
                >(n) && (n matches Some(k) ==> k != 0),
                Err(e) => read_column(*self, name@, |v: SqlValue| optional_id_value(v)) == Err::<
                    Option<u64>,
                    SqlErrorView,
                >(e@),
            },
    {
        let idx = self.column_index(name)?;
        match as_optional_id(&self.columns[idx].value) {
            Ok(n) => Ok(n),
            Err(e) => Err(self.conversion_failure(idx, e)),
        }
    }
}

} // verus!
